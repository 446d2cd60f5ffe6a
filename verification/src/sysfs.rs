//! Reading the text files and command output that describe graphics cards
//! and disks: uevent files, clock tables, hwmon readings, `lspci` listings
//! and `/proc/diskstats` lines.
use vstd::prelude::*;
use crate::parse::{
    ends_with, lines_of, parse_u32, parse_u64, parsed_u32, parsed_u64, replace_all, replace_text,
    split_char, split_lines, split_on, starts_with, string_texts,
};
use crate::text::{
    chars_of, contains_chars, contains_text, is_white_space, normalize, normalized, spec_lowercase, spec_trim,
    str_equal, str_to_lowercase, str_trim,
};

verus! {

/// The words of `s` read after the word `cur` that is being collected:
/// maximal runs of characters that are not white space.
pub open spec fn words_after(s: Seq<char>, cur: Seq<char>) -> Seq<Seq<char>>
    decreases s.len(),
{
    let done: Seq<Seq<char>> = if cur.len() > 0 { seq![cur] } else { Seq::empty() };
    if s.len() == 0 {
        done
    } else if is_white_space(s[0]) {
        done + words_after(s.drop_first(), Seq::empty())
    } else {
        words_after(s.drop_first(), cur.push(s[0]))
    }
}

/// What `str::split_whitespace` yields: the non-empty runs of characters
/// between white space, in order.
pub open spec fn spec_split_whitespace(s: Seq<char>) -> Seq<Seq<char>> {
    words_after(s, Seq::empty())
}

/// `str::split_whitespace`, each word copied into a `String`.
#[verifier::external_body]
pub(crate) fn split_whitespace(s: &str) -> (r: Vec<String>)
    ensures
        string_texts(r@) == spec_split_whitespace(s@),
{
    s.split_whitespace().map(|w| w.to_string()).collect()
}

/// What `char::is_numeric` answers: whether the character has a Unicode
/// numeric general category.
pub uninterp spec fn spec_is_numeric(c: char) -> bool;

/// `char::is_numeric`. The contract names the result; the Unicode
/// categories are not restated.
#[verifier::external_body]
pub(crate) fn is_numeric(c: char) -> (b: bool)
    ensures
        b == spec_is_numeric(c),
{
    c.is_numeric()
}

/// `s` without its first `k` characters.
pub fn skip_chars(s: &str, k: usize) -> (r: String)
    requires
        k <= s@.len(),
    ensures
        r@ == s@.skip(k as int),
{
    let n = s.unicode_len();
    let r = String::from_str(s.substring_char(k, n));
    assert(s@.subrange(k as int, n as int) =~= s@.skip(k as int));
    r
}

fn has_prefix(s: &str, p: &str) -> (b: bool)
    ensures
        b == starts_with(s@, p@),
{
    let v = chars_of(s);
    let w = chars_of(p);
    if w.len() > v.len() {
        return false;
    }
    let mut i: usize = 0;
    while i < w.len()
        invariant
            v@ == s@,
            w@ == p@,
            w@.len() <= v@.len(),
            i <= w@.len(),
            forall|t: int| 0 <= t < i ==> v@[t] == w@[t],
        decreases w.len() - i,
    {
        if v[i] != w[i] {
            assert(v@.subrange(0, w@.len() as int)[i as int] != w@[i as int]);
            return false;
        }
        i = i + 1;
    }
    assert(v@.subrange(0, w@.len() as int) =~= w@);
    true
}

/// The driver named by the last `DRIVER=` line of a uevent file, trimmed;
/// empty if there is none.
pub open spec fn uevent_driver(lines: Seq<Seq<char>>) -> Seq<char>
    decreases lines.len(),
{
    if lines.len() == 0 {
        Seq::empty()
    } else if starts_with(lines.last(), "DRIVER="@) {
        spec_trim(lines.last().skip(7))
    } else {
        uevent_driver(lines.drop_last())
    }
}

/// The PCI slot named by the last `PCI_SLOT_NAME=` line, trimmed.
pub open spec fn uevent_slot(lines: Seq<Seq<char>>) -> Option<Seq<char>>
    decreases lines.len(),
{
    if lines.len() == 0 {
        None
    } else if !starts_with(lines.last(), "DRIVER="@) && starts_with(lines.last(), "PCI_SLOT_NAME="@) {
        Some(spec_trim(lines.last().skip(14)))
    } else {
        uevent_slot(lines.drop_last())
    }
}

/// The driver and PCI slot that a uevent file's text names.
pub fn parse_uevent_text(content: &str) -> (r: (String, Option<String>))
    ensures
        r.0@ == uevent_driver(lines_of(content@)),
        match r.1 {
            Some(s) => uevent_slot(lines_of(content@)) == Some(s@),
            None => uevent_slot(lines_of(content@)) is None,
        },
{
    let lines = split_lines(content);
    let ghost ls = lines_of(content@);
    let mut driver = String::new();
    let mut slot: Option<String> = None;
    let mut i: usize = 0;
    assert(ls.take(0) =~= Seq::<Seq<char>>::empty());
    while i < lines.len()
        invariant
            i <= lines@.len(),
            string_texts(lines@) == ls,
            driver@ == uevent_driver(ls.take(i as int)),
            match slot {
                Some(s) => uevent_slot(ls.take(i as int)) == Some(s@),
                None => uevent_slot(ls.take(i as int)) is None,
            },
        decreases lines.len() - i,
    {
        let line = lines[i].as_str();
        proof {
            assert(ls.take(i + 1).drop_last() =~= ls.take(i as int));
            assert(ls.take(i + 1).last() == line@);
        }
        proof {
            reveal_strlit("DRIVER=");
            reveal_strlit("PCI_SLOT_NAME=");
        }
        if has_prefix(line, "DRIVER=") {
            let rest = skip_chars(line, 7);
            driver = String::from_str(str_trim(rest.as_str()));
        } else if has_prefix(line, "PCI_SLOT_NAME=") {
            let rest = skip_chars(line, 14);
            slot = Some(String::from_str(str_trim(rest.as_str())));
        }
        i = i + 1;
    }
    assert(ls.take(lines@.len() as int) =~= ls);
    (driver, slot)
}

/// What a hwmon frequency file (in Hz) gives in MHz, truncated to 32 bits
/// like `as u32`.
pub open spec fn hwmon_freq_value(content: Seq<char>) -> Option<u32> {
    match parsed_u64(spec_trim(content)) {
        Some(hz) => Some(((hz / 1_000_000) % 0x1_0000_0000) as u32),
        None => None,
    }
}

/// The frequency in MHz that a hwmon `freq*_input` file's text gives.
pub fn hwmon_freq_mhz(content: &str) -> (r: Option<u32>)
    ensures
        r == hwmon_freq_value(content@),
{
    match parse_u64(str_trim(content)) {
        Some(hz) => {
            let mhz = hz / 1_000_000;
            let low = (mhz % 0x1_0000_0000) as u32;
            Some(low)
        },
        None => None,
    }
}

/// `w` without its trailing non-numeric characters.
pub open spec fn trim_end_non_numeric(w: Seq<char>) -> Seq<char>
    decreases w.len(),
{
    if w.len() > 0 && !spec_is_numeric(w.last()) {
        trim_end_non_numeric(w.drop_last())
    } else {
        w
    }
}

/// The first word that ends in "mhz", ignoring case.
pub open spec fn first_mhz_word(words: Seq<Seq<char>>) -> Option<Seq<char>>
    decreases words.len(),
{
    if words.len() == 0 {
        None
    } else if ends_with(spec_lowercase(words[0]), "mhz"@) {
        Some(words[0])
    } else {
        first_mhz_word(words.drop_first())
    }
}

/// The active clock of an AMD `pp_dpm_*` table: the first line marked with
/// `*`, its first word ending in "MHz" (any case), without trailing
/// non-digits, read as a number. Nothing when no line is marked, the marked
/// line has no such word, or the number is malformed.
pub open spec fn amd_clock_value(lines: Seq<Seq<char>>) -> Option<u32>
    decreases lines.len(),
{
    if lines.len() == 0 {
        None
    } else if contains_text(lines[0], "*"@) {
        match first_mhz_word(spec_split_whitespace(lines[0])) {
            Some(w) => parsed_u32(trim_end_non_numeric(w)),
            None => None,
        }
    } else {
        amd_clock_value(lines.drop_first())
    }
}

fn ends_with_mhz(w: &str) -> (b: bool)
    ensures
        b == ends_with(spec_lowercase(w@), "mhz"@),
{
    let l = chars_of(str_to_lowercase(w).as_str());
    let suffix = chars_of("mhz");
    proof {
        reveal_strlit("mhz");
    }
    if l.len() < 3 {
        return false;
    }
    let n = l.len();
    let b = l[n - 3] == suffix[0] && l[n - 2] == suffix[1] && l[n - 1] == suffix[2];
    assert(b == (l@.subrange(n - 3, n as int) =~= suffix@));
    b
}

fn trim_end_non_numeric_exec(w: &str) -> (r: String)
    ensures
        r@ == trim_end_non_numeric(w@),
{
    let v = chars_of(w);
    let mut k = v.len();
    assert(v@.subrange(0, k as int) =~= w@);
    while k > 0 && !is_numeric(v[k - 1])
        invariant
            k <= v@.len(),
            trim_end_non_numeric(w@) == trim_end_non_numeric(v@.subrange(0, k as int)),
            v@ == w@,
        decreases k,
    {
        proof {
            assert(v@.subrange(0, k as int).drop_last() =~= v@.subrange(0, k - 1));
        }
        k = k - 1;
    }
    let mut r = String::new();
    let mut i: usize = 0;
    while i < k
        invariant
            i <= k <= v@.len(),
            r@ == v@.subrange(0, i as int),
        decreases k - i,
    {
        crate::text::string_push(&mut r, v[i]);
        i = i + 1;
        assert(r@ =~= v@.subrange(0, i as int));
    }
    proof {
        assert(v@.subrange(0, v@.len() as int) =~= w@);
    }
    r
}

/// The active clock in MHz of an AMD `pp_dpm_sclk` / `pp_dpm_mclk` file's
/// text.
pub fn amd_clock_mhz(content: &str) -> (r: Option<u32>)
    ensures
        r == amd_clock_value(lines_of(content@)),
{
    let lines = split_lines(content);
    let ghost ls = lines_of(content@);
    let mut i: usize = 0;
    assert(ls.skip(0) =~= ls);
    while i < lines.len()
        invariant
            i <= lines@.len(),
            string_texts(lines@) == ls,
            ls == lines_of(content@),
            amd_clock_value(ls) == amd_clock_value(ls.skip(i as int)),
        decreases lines.len() - i,
    {
        let line = lines[i].as_str();
        let lv = chars_of(line);
        let star = chars_of("*");
        proof {
            assert(ls.skip(i as int)[0] == line@);
            assert(ls.skip(i as int).drop_first() =~= ls.skip(i + 1));
        }
        if contains_chars(&lv, &star) {
            let words = split_whitespace(line);
            let ghost ws = string_texts(words@);
            let mut j: usize = 0;
            assert(ws.skip(0) =~= ws);
            assert(amd_clock_value(ls.skip(i as int)) == match first_mhz_word(ws) {
                Some(w) => parsed_u32(trim_end_non_numeric(w)),
                None => None,
            });
            while j < words.len()
                invariant
                    j <= words@.len(),
                    ws == string_texts(words@),
                    ls == lines_of(content@),
                    amd_clock_value(ls) == (match first_mhz_word(ws) {
                        Some(w) => parsed_u32(trim_end_non_numeric(w)),
                        None => None,
                    }),
                    first_mhz_word(ws) == first_mhz_word(ws.skip(j as int)),
                decreases words.len() - j,
            {
                proof {
                    assert(ws.skip(j as int)[0] == words@[j as int]@);
                    assert(ws.skip(j as int).drop_first() =~= ws.skip(j + 1));
                }
                if ends_with_mhz(words[j].as_str()) {
                    let num = trim_end_non_numeric_exec(words[j].as_str());
                    return parse_u32(num.as_str());
                }
                j = j + 1;
            }
            assert(ws.skip(j as int).len() == 0);
            return None;
        }
        i = i + 1;
    }
    assert(ls.skip(i as int).len() == 0);
    None
}

/// `text` with the company suffixes that `lspci` adds to vendor names
/// removed: " Corporation", ", Inc." and " [AMD/ATI]".
pub open spec fn short_vendor(text: Seq<char>) -> Seq<char> {
    replace_all(
        replace_all(replace_all(text, " Corporation"@, ""@), ", Inc."@, ""@),
        " [AMD/ATI]"@,
        ""@,
    )
}

/// The (slot, name) entry of one line of `lspci -mm -D` output, if the
/// line describes a display controller: the line is cut at double quotes;
/// with at least four pieces, the first (trimmed) is the slot, the second
/// the class, which must mention "VGA", "3D" or "Display"; the name is the
/// shortened vendor (fourth piece) and the device (sixth piece if there is
/// one, else the vendor again), separated by a space and trimmed.
pub open spec fn pci_entry(line: Seq<char>) -> Option<(Seq<char>, Seq<char>)> {
    let parts = split_on(line, '"');
    if parts.len() >= 4 && (contains_text(parts[1], "VGA"@) || contains_text(parts[1], "3D"@)
        || contains_text(parts[1], "Display"@)) {
        let vendor = short_vendor(parts[3]);
        let device = if parts.len() >= 6 { parts[5] } else { parts[3] };
        Some((spec_trim(parts[0]), spec_trim(vendor + seq![' '] + device)))
    } else {
        None
    }
}

/// The entries of all lines, in order.
pub open spec fn pci_entries(lines: Seq<Seq<char>>) -> Seq<(Seq<char>, Seq<char>)>
    decreases lines.len(),
{
    if lines.len() == 0 {
        Seq::empty()
    } else {
        let rest = pci_entries(lines.drop_last());
        match pci_entry(lines.last()) {
            Some(e) => rest.push(e),
            None => rest,
        }
    }
}

pub open spec fn pair_texts(v: Seq<(String, String)>) -> Seq<(Seq<char>, Seq<char>)> {
    v.map_values(|p: (String, String)| (p.0@, p.1@))
}

fn mentions(hay: &str, needle: &str) -> (b: bool)
    ensures
        b == contains_text(hay@, needle@),
{
    let h = chars_of(hay);
    let n = chars_of(needle);
    contains_chars(&h, &n)
}

/// The display controllers that `lspci -mm -D` lists, as (PCI slot, name)
/// pairs in output order; a later pair for the same slot replaces an
/// earlier one.
pub fn pci_names_from_lspci(text: &str) -> (r: Vec<(String, String)>)
    ensures
        pair_texts(r@) == pci_entries(lines_of(text@)),
{
    let lines = split_lines(text);
    let ghost ls = lines_of(text@);
    let mut r: Vec<(String, String)> = Vec::new();
    let mut i: usize = 0;
    assert(ls.take(0) =~= Seq::<Seq<char>>::empty());
    assert(pair_texts(r@) =~= Seq::<(Seq<char>, Seq<char>)>::empty());
    while i < lines.len()
        invariant
            i <= lines@.len(),
            string_texts(lines@) == ls,
            pair_texts(r@) == pci_entries(ls.take(i as int)),
        decreases lines.len() - i,
    {
        let line = lines[i].as_str();
        proof {
            assert(ls.take(i + 1).drop_last() =~= ls.take(i as int));
            assert(ls.take(i + 1).last() == line@);
        }
        let parts = split_char(line, '"');
        proof {
            assert(string_texts(parts@) == split_on(line@, '"'));
            assert(parts@.len() == split_on(line@, '"').len());
        }
        if parts.len() >= 4 {
            let class = parts[1].as_str();
            proof {
                assert(class@ == split_on(line@, '"')[1]);
                assert(parts@[3]@ == split_on(line@, '"')[3]);
                assert(parts@[0]@ == split_on(line@, '"')[0]);
            }
            if mentions(class, "VGA") || mentions(class, "3D") || mentions(class, "Display") {
                proof {
                    reveal_strlit(" Corporation");
                    reveal_strlit(", Inc.");
                    reveal_strlit(" [AMD/ATI]");
                }
                let v1 = replace_text(parts[3].as_str(), " Corporation", "");
                let v2 = replace_text(v1.as_str(), ", Inc.", "");
                let vendor = replace_text(v2.as_str(), " [AMD/ATI]", "");
                let device = if parts.len() >= 6 {
                    proof {
                        assert(parts@[5]@ == split_on(line@, '"')[5]);
                    }
                    parts[5].as_str()
                } else {
                    parts[3].as_str()
                };
                let mut joined = vendor.clone();
                crate::text::string_push(&mut joined, ' ');
                joined.append(device);
                let slot = String::from_str(str_trim(parts[0].as_str()));
                let name = String::from_str(str_trim(joined.as_str()));
                proof {
                    assert(joined@ =~= vendor@ + seq![' '] + device@);
                }
                proof {
                    assert(pci_entry(line@) == Some((slot@, name@)));
                    assert(pci_entries(ls.take(i + 1)) == pci_entries(ls.take(i as int)).push((slot@, name@)));
                }
                let ghost before = r@;
                r.push((slot, name));
                proof {
                    assert(r@.drop_last() == before);
                    assert(pair_texts(r@) =~= pair_texts(before).push((slot@, name@)));
                }
            } else {
                proof {
                    assert(pci_entry(line@) is None);
                    assert(pci_entries(ls.take(i + 1)) == pci_entries(ls.take(i as int)));
                }
            }
        } else {
            proof {
                assert(pci_entry(line@) is None);
                assert(pci_entries(ls.take(i + 1)) == pci_entries(ls.take(i as int)));
            }
        }
        i = i + 1;
    }
    assert(ls.take(lines@.len() as int) =~= ls);
    r
}

/// The (device, sectors read, sectors written) of a `/proc/diskstats` line:
/// its third, sixth and tenth words when it has at least ten; a count that
/// is not a number reads as 0.
pub open spec fn diskstats_value(line: Seq<char>) -> Option<(Seq<char>, u64, u64)> {
    let w = spec_split_whitespace(line);
    if w.len() >= 10 {
        Some((
            w[2],
            match parsed_u64(w[5]) { Some(v) => v, None => 0 },
            match parsed_u64(w[9]) { Some(v) => v, None => 0 },
        ))
    } else {
        None
    }
}

/// Reads one line of `/proc/diskstats`.
pub fn diskstats_entry(line: &str) -> (r: Option<(String, u64, u64)>)
    ensures
        match r {
            Some(e) => diskstats_value(line@) == Some((e.0@, e.1, e.2)),
            None => diskstats_value(line@) is None,
        },
{
    let w = split_whitespace(line);
    if w.len() >= 10 {
        proof {
            assert(w@[2]@ == spec_split_whitespace(line@)[2]);
            assert(w@[5]@ == spec_split_whitespace(line@)[5]);
            assert(w@[9]@ == spec_split_whitespace(line@)[9]);
        }
        let read = match parse_u64(w[5].as_str()) {
            Some(v) => v,
            None => 0,
        };
        let written = match parse_u64(w[9].as_str()) {
            Some(v) => v,
            None => 0,
        };
        Some((w[2].clone(), read, written))
    } else {
        None
    }
}

/// The device name without its directories: what follows the last `/`.
pub open spec fn base_device(name: Seq<char>) -> Seq<char> {
    split_on(name, '/').last()
}

proof fn lemma_split_nonempty(s: Seq<char>, c: char)
    ensures
        split_on(s, c).len() >= 1,
    decreases s.len(),
{
    crate::parse::lemma_first_index(s, c);
    match crate::parse::first_index_of(s, c) {
        Some(i) => {
            lemma_split_nonempty(s.subrange(i + 1 as int, s.len() as int), c);
        },
        None => {},
    }
}

/// The device name of a disk without its directories (`/dev/nvme0n1p1`
/// gives `nvme0n1p1`).
pub fn base_device_name(name: &str) -> (r: String)
    ensures
        r@ == base_device(name@),
{
    let parts = split_char(name, '/');
    proof {
        lemma_split_nonempty(name@, '/');
        assert(parts@.len() == split_on(name@, '/').len());
    }
    let n = parts.len();
    proof {
        assert(parts@[n - 1]@ == split_on(name@, '/')[n - 1]);
    }
    parts[n - 1].clone()
}

/// Kind of a graphics card found under `/sys/class/drm`.
#[derive(Debug, Clone, Copy, PartialEq, Eq, Structural)]
pub enum CardKind {
    /// An AMD card read through the amdgpu files.
    Amd,
    /// An Intel card read through the i915 files.
    Intel,
    /// An NVIDIA card without NVML, read through the same files as AMD cards.
    NvidiaSysfs,
}

/// How a graphics card will be sampled.
#[derive(Debug, Clone)]
pub struct CardPlan {
    pub kind: CardKind,
    pub name: String,
    pub driver: String,
}

/// A directory entry of `/sys/class/drm` that is a card node ("card0") and
/// not a connector ("card1-DP-1").
pub open spec fn is_card_node_name(name: Seq<char>) -> bool {
    starts_with(name, "card"@) && !contains_text(name, "-"@)
}

pub fn is_card_node(file_name: &str) -> (b: bool)
    ensures
        b == is_card_node_name(file_name@),
{
    has_prefix(file_name, "card") && !mentions(file_name, "-")
}

/// The plan for a card from its vendor file, its uevent driver, the name
/// found for its PCI slot and whether NVML already found NVIDIA cards:
/// AMD (0x1002) and Intel (0x8086) cards are sampled through sysfs with
/// default names and drivers; an NVIDIA card (0x10de) only when NVML found
/// none, with the "nouveau" driver; other vendors are skipped.
pub open spec fn card_plan(
    vendor: Seq<char>,
    driver: Seq<char>,
    resolved_name: Option<Seq<char>>,
    nvml_has_devices: bool,
) -> Option<(CardKind, Seq<char>, Seq<char>)> {
    let v = normalized(vendor);
    let name_or = |d: Seq<char>| match resolved_name {
        Some(n) => n,
        None => d,
    };
    if v == "0x1002"@ {
        Some((CardKind::Amd, name_or("AMD Radeon Graphics"@), if driver.len() == 0 { "amdgpu"@ } else { driver }))
    } else if v == "0x8086"@ {
        Some((CardKind::Intel, name_or("Intel UHD Graphics"@), if driver.len() == 0 { "i915"@ } else { driver }))
    } else if v == "0x10de"@ && !nvml_has_devices {
        Some((CardKind::NvidiaSysfs, name_or("NVIDIA Graphics"@), "nouveau"@))
    } else {
        None
    }
}

fn name_or_default(resolved: Option<String>, d: &str) -> (r: String)
    ensures
        r@ == (match resolved {
            Some(n) => n@,
            None => d@,
        }),
{
    match resolved {
        Some(n) => n,
        None => String::from_str(d),
    }
}

/// Decides how a card found under `/sys/class/drm` is sampled.
pub fn plan_card(vendor: &str, driver: String, resolved_name: Option<String>, nvml_has_devices: bool) -> (r:
    Option<CardPlan>)
    ensures
        match r {
            Some(p) => card_plan(vendor@, driver@, crate::config::opt_text(resolved_name), nvml_has_devices)
                == Some((p.kind, p.name@, p.driver@)),
            None => card_plan(vendor@, driver@, crate::config::opt_text(resolved_name), nvml_has_devices) is None,
        },
{
    let v = normalize(vendor);
    let empty_driver = driver.as_str().is_empty();
    if str_equal(v.as_str(), "0x1002") {
        let name = name_or_default(resolved_name, "AMD Radeon Graphics");
        let d = if empty_driver { String::from_str("amdgpu") } else { driver };
        Some(CardPlan { kind: CardKind::Amd, name, driver: d })
    } else if str_equal(v.as_str(), "0x8086") {
        let name = name_or_default(resolved_name, "Intel UHD Graphics");
        let d = if empty_driver { String::from_str("i915") } else { driver };
        Some(CardPlan { kind: CardKind::Intel, name, driver: d })
    } else if str_equal(v.as_str(), "0x10de") && !nvml_has_devices {
        let name = name_or_default(resolved_name, "NVIDIA Graphics");
        Some(CardPlan { kind: CardKind::NvidiaSysfs, name, driver: String::from_str("nouveau") })
    } else {
        None
    }
}

/// The driver label shown for a card read through sysfs: "<driver> (sysfs)".
pub fn sysfs_driver_label(driver: &str) -> (r: String)
    ensures
        r@ == driver@ + " (sysfs)"@,
{
    let mut r = String::from_str(driver);
    r.append(" (sysfs)");
    r
}

/// A line of `lspci -mm -D` that describes a display controller: cut at
/// double quotes it has at least four pieces, and its class piece mentions
/// "VGA", "3D" or "Display".
pub open spec fn lists_display_controller(line: Seq<char>) -> bool {
    let parts = split_on(line, '"');
    parts.len() >= 4 && (contains_text(parts[1], "VGA"@) || contains_text(parts[1], "3D"@)
        || contains_text(parts[1], "Display"@))
}

/// The slot a line names: its first piece, trimmed.
pub open spec fn listed_slot(line: Seq<char>) -> Seq<char> {
    spec_trim(split_on(line, '"')[0])
}

/// The card name a line gives: the vendor without company suffixes, then
/// the device (or the vendor again if there is no device piece), trimmed.
pub open spec fn listed_name(line: Seq<char>) -> Seq<char> {
    let parts = split_on(line, '"');
    spec_trim(short_vendor(parts[3]) + seq![' '] + (if parts.len() >= 6 { parts[5] } else { parts[3] }))
}

/// Every display controller that `lspci` lists gets an entry with its slot
/// and name, and every entry comes from such a line; other lines give none.
pub proof fn lemma_pci_entries_cover_displays(lines: Seq<Seq<char>>)
    ensures
        forall|k: int|
            0 <= k < lines.len() && lists_display_controller(#[trigger] lines[k]) ==> pci_entries(lines).contains(
                (listed_slot(lines[k]), listed_name(lines[k])),
            ),
        forall|e: (Seq<char>, Seq<char>)|
            #[trigger] pci_entries(lines).contains(e) ==> exists|k: int|
                0 <= k < lines.len() && lists_display_controller(#[trigger] lines[k]) && e == (
                    listed_slot(lines[k]),
                    listed_name(lines[k]),
                ),
    decreases lines.len(),
{
    if lines.len() > 0 {
        let init = lines.drop_last();
        let last = lines.last();
        lemma_pci_entries_cover_displays(init);
        let before = pci_entries(init);
        let all = pci_entries(lines);
        assert(last == lines[lines.len() - 1]);
        if lists_display_controller(last) {
            assert(pci_entry(last) == Some((listed_slot(last), listed_name(last))));
            assert(all == before.push((listed_slot(last), listed_name(last))));
        } else {
            assert(pci_entry(last) is None);
            assert(all == before);
        }
        assert forall|k: int|
            0 <= k < lines.len() && lists_display_controller(#[trigger] lines[k]) implies all.contains(
                (listed_slot(lines[k]), listed_name(lines[k])),
            ) by {
            if k < lines.len() - 1 {
                assert(init[k] == lines[k]);
                assert(before.contains((listed_slot(init[k]), listed_name(init[k]))));
                let j = choose|j: int| 0 <= j < before.len() && before[j] == (listed_slot(init[k]), listed_name(init[k]));
                assert(all[j] == before[j]);
            } else {
                assert(all[all.len() - 1] == (listed_slot(last), listed_name(last)));
            }
        }
        assert forall|e: (Seq<char>, Seq<char>)| #[trigger] all.contains(e) implies exists|k: int|
            0 <= k < lines.len() && lists_display_controller(#[trigger] lines[k]) && e == (
                listed_slot(lines[k]),
                listed_name(lines[k]),
            ) by {
            let j = choose|j: int| 0 <= j < all.len() && all[j] == e;
            if j < before.len() {
                assert(before[j] == e);
                assert(before.contains(e));
                let k = choose|k: int|
                    0 <= k < init.len() && lists_display_controller(#[trigger] init[k]) && e == (
                        listed_slot(init[k]),
                        listed_name(init[k]),
                    );
                assert(lines[k] == init[k]);
            } else {
                assert(lines[lines.len() - 1] == last);
            }
        }
    }
}

} // verus!
