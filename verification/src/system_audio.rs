//! Capture of system audio through a virtual device: what is detected, what is
//! reported, and which input is recorded.
use vstd::prelude::*;

use crate::numbers::{
    decimal, is_digit, law_decimal_round_trip, lemma_decimal_is_digits, parse_number, parsed_number,
    u64_text, usize_text,
};
use crate::strings::{
    cat2, cat3, cat5, chars_of, contains, eq_ignore_case, find, first_at, is_white,
    law_trim_cuts_the_edges, lemma_no_split_once, lemma_split_once, lemma_texts_push, lines, lower,
    occurs_at, opt_text, split, split_once, starts_with, str_contains, str_eq, str_eq_ignore_case,
    str_lines, str_split, str_split_once, str_strip_end, str_strip_prefix, str_trim, strip_end,
    texts, to_lower, trim, CharClass,
};

verus! {

/// A version of macOS.
#[derive(Debug, Clone, Copy, PartialEq, Eq, Structural)]
pub struct MacOsVersion {
    pub major: u32,
    pub minor: u32,
    pub patch: u32,
}

/// The part of a version at a position: zero where it is left out after the
/// first.
pub open spec fn version_part(p: Seq<Seq<char>>, i: int) -> Option<nat> {
    if i < p.len() {
        parsed_number(p[i], u32::MAX as nat)
    } else {
        parsed_number("0"@, u32::MAX as nat)
    }
}

impl MacOsVersion {
    /// A version of three numbers.
    pub fn new(major: u32, minor: u32, patch: u32) -> (r: Self)
        ensures
            r == (MacOsVersion { major, minor, patch }),
    {
        MacOsVersion { major, minor, patch }
    }

    /// The version that a text stands for: numbers with dots between them, of
    /// which the first three count.
    pub open spec fn parsed(s: Seq<char>) -> Option<MacOsVersion> {
        let p = split(s, CharClass::Is('.'));
        match (version_part(p, 0), version_part(p, 1), version_part(p, 2)) {
            (Some(a), Some(b), Some(c)) => Some(
                MacOsVersion { major: a as u32, minor: b as u32, patch: c as u32 },
            ),
            _ => None,
        }
    }

    /// The version that a text stands for.
    pub fn parse(value: &str) -> (r: Option<Self>)
        ensures
            r == MacOsVersion::parsed(value@),
    {
        let p = str_split(value, CharClass::Is('.'));
        let major = parse_part(&p, 0);
        let minor = parse_part(&p, 1);
        let patch = parse_part(&p, 2);
        match (major, minor, patch) {
            (Some(a), Some(b), Some(c)) => Some(MacOsVersion { major: a, minor: b, patch: c }),
            _ => None,
        }
    }

    /// The version as it is written.
    pub open spec fn written(self) -> Seq<char> {
        decimal(self.major as nat) + "."@ + decimal(self.minor as nat) + "."@ + decimal(
            self.patch as nat,
        )
    }

    /// The version as it is written.
    pub fn text(&self) -> (r: String)
        ensures
            r@ == self.written(),
    {
        cat5(
            &u64_text(self.major as u64),
            ".",
            &u64_text(self.minor as u64),
            ".",
            &u64_text(self.patch as u64),
        )
    }

    /// Whether the version is `other` or a later one.
    pub open spec fn is_at_least(self, other: MacOsVersion) -> bool {
        self.major > other.major || (self.major == other.major && (self.minor > other.minor || (
        self.minor == other.minor && self.patch >= other.patch)))
    }

    /// Whether the version is `other` or a later one.
    pub fn at_least(&self, other: &MacOsVersion) -> (r: bool)
        ensures
            r == self.is_at_least(*other),
    {
        self.major > other.major || (self.major == other.major && (self.minor > other.minor || (
        self.minor == other.minor && self.patch >= other.patch)))
    }
}

/// The part of a version at a position.
fn parse_part(p: &Vec<String>, i: usize) -> (r: Option<u32>)
    ensures
        match r {
            Some(n) => version_part(texts(p@), i as int) == Some(n as nat),
            None => version_part(texts(p@), i as int) is None,
        },
{
    if i < p.len() {
        assert(texts(p@)[i as int] == p@[i as int]@);
        parse_number(&chars_of(&p[i]), u32::MAX)
    } else {
        parse_number(&chars_of("0"), u32::MAX)
    }
}

/// Splitting leaves a text alone that holds no separator.
proof fn lemma_split_state_plain(s: Seq<char>, t: Seq<char>, class: CharClass)
    requires
        forall|i: int| 0 <= i < t.len() ==> !class.holds(#[trigger] t[i]),
    ensures
        crate::strings::split_state(s + t, class) == (
            crate::strings::split_state(s, class).0,
            crate::strings::split_state(s, class).1 + t,
        ),
    decreases t.len(),
{
    if t.len() == 0 {
        assert(s + t =~= s);
        assert(crate::strings::split_state(s, class).1 + t =~= crate::strings::split_state(
            s,
            class,
        ).1);
    } else {
        assert((s + t).drop_last() =~= s + t.drop_last());
        assert((s + t).last() == t.last());
        assert forall|i: int| 0 <= i < t.drop_last().len() implies !class.holds(
            #[trigger] t.drop_last()[i],
        ) by {
            assert(!class.holds(t[i]));
        }
        lemma_split_state_plain(s, t.drop_last(), class);
        assert(!class.holds(t[t.len() - 1]));
        let open = crate::strings::split_state(s, class).1;
        assert((open + t.drop_last()).push(t.last()) =~= open + t);
    }
}

/// Reading a written version gives the version.
pub proof fn law_version_round_trip(v: MacOsVersion)
    ensures
        MacOsVersion::parsed(v.written()) == Some(v),
{
    let class = CharClass::Is('.');
    let a = decimal(v.major as nat);
    let b = decimal(v.minor as nat);
    let c = decimal(v.patch as nat);
    crate::numbers::lemma_decimal_is_digits(v.major as nat);
    crate::numbers::lemma_decimal_is_digits(v.minor as nat);
    crate::numbers::lemma_decimal_is_digits(v.patch as nat);
    crate::numbers::law_decimal_round_trip(v.major as nat, u32::MAX as nat);
    crate::numbers::law_decimal_round_trip(v.minor as nat, u32::MAX as nat);
    crate::numbers::law_decimal_round_trip(v.patch as nat, u32::MAX as nat);
    reveal_strlit(".");
    assert forall|i: int| 0 <= i < a.len() implies !class.holds(#[trigger] a[i]) by {
        assert(crate::numbers::is_digit(a[i]));
    }
    assert forall|i: int| 0 <= i < b.len() implies !class.holds(#[trigger] b[i]) by {
        assert(crate::numbers::is_digit(b[i]));
    }
    assert forall|i: int| 0 <= i < c.len() implies !class.holds(#[trigger] c[i]) by {
        assert(crate::numbers::is_digit(c[i]));
    }
    let e = Seq::<char>::empty();
    lemma_split_state_plain(e, a, class);
    assert(e + a =~= a);
    let s1 = a + "."@;
    assert(s1.drop_last() =~= a);
    assert(s1.last() == '.');
    lemma_split_state_plain(s1, b, class);
    let s2 = s1 + b + "."@;
    assert(s2.drop_last() =~= s1 + b);
    assert(s2.last() == '.');
    lemma_split_state_plain(s2, c, class);
    assert(e + a =~= a && e + b =~= b && e + c =~= c);
    let p = split(v.written(), class);
    assert(p =~= seq![a, b, c]);
}

/// The system that a probe ran on.
#[derive(Debug, PartialEq, Eq)]
pub enum Platform {
    MacOs(Option<MacOsVersion>),
    Other(String),
}

/// What a probe saw.
#[derive(Debug, PartialEq, Eq)]
pub struct SystemAudioProbeSnapshot {
    pub platform: Platform,
    pub audio_input_devices: Vec<String>,
    pub probe_error: Option<String>,
}

/// Looks at the audio devices of the system.
pub trait SystemAudioProbe {
    /// What is there now.
    fn snapshot(&self) -> SystemAudioProbeSnapshot;
}

/// Whether system audio can be captured, and what is needed for it.
#[derive(Debug)]
pub struct SystemAudioReport {
    pub available: bool,
    pub status: String,
    pub strategy: String,
    pub detail: String,
    pub remediation: String,
    pub macos_version: Option<String>,
    pub dependency: SystemAudioDependency,
    pub permissions: SystemAudioPermissions,
    pub native_core_audio_tap: NativeCoreAudioTap,
    pub source_metadata: SourceMetadataPrototype,
}

/// The virtual device that capture needs.
#[derive(Debug)]
pub struct SystemAudioDependency {
    pub name: String,
    pub present: bool,
    pub device_name: Option<String>,
    pub detail: String,
}

/// The permissions that capture needs.
#[derive(Debug)]
pub struct SystemAudioPermissions {
    pub microphone: PermissionDiagnostic,
    pub system_audio_routing: PermissionDiagnostic,
}

/// What is known of a permission.
#[derive(Debug)]
pub struct PermissionDiagnostic {
    pub status: String,
    pub detail: String,
    pub remediation: String,
}

/// Whether the system itself could capture its audio.
#[derive(Debug)]
pub struct NativeCoreAudioTap {
    pub supported_by_os: bool,
    pub minimum_macos: String,
    pub permission_model: String,
    pub detail: String,
}

/// The labels and modes of captured audio.
#[derive(Debug)]
pub struct SourceMetadataPrototype {
    pub labels: Vec<String>,
    pub modes: Vec<String>,
    pub mixed_source_label: String,
}

// ---------------------------------------------------------------------------
// Devices
// ---------------------------------------------------------------------------

/// Whether a device is the virtual loopback device.
pub open spec fn is_blackhole(device: Seq<char>) -> bool {
    contains(lower(device), "blackhole"@)
}

/// Whether a device is the virtual loopback device.
pub fn is_blackhole_device(device: &str) -> (r: bool)
    ensures
        r == is_blackhole(device@),
{
    str_contains(&to_lower(device), "blackhole")
}

/// Whether a device is the loopback device that is asked for: any, or the one
/// with the preferred name.
pub open spec fn is_wanted(device: Seq<char>, preferred: Option<Seq<char>>) -> bool {
    is_blackhole(device) && match preferred {
        Some(p) => eq_ignore_case(device, p),
        None => true,
    }
}

/// The position of the first device that is asked for.
pub open spec fn wanted_index(d: Seq<Seq<char>>, preferred: Option<Seq<char>>) -> Option<int>
    decreases d.len(),
{
    if d.len() == 0 {
        None
    } else {
        match wanted_index(d.drop_last(), preferred) {
            Some(i) => Some(i),
            None => if is_wanted(d.last(), preferred) {
                Some(d.len() - 1)
            } else {
                None
            },
        }
    }
}

/// The loopback device to use: the preferred one where it is there, else the
/// first. A device that is not a loopback device is never used, whatever its
/// name.
pub open spec fn loopback_device(d: Seq<Seq<char>>, preferred: Option<Seq<char>>) -> Option<
    Seq<char>,
> {
    match preferred {
        Some(p) => match wanted_index(d, Some(p)) {
            Some(i) => Some(d[i]),
            None => match wanted_index(d, None) {
                Some(i) => Some(d[i]),
                None => None,
            },
        },
        None => match wanted_index(d, None) {
            Some(i) => Some(d[i]),
            None => None,
        },
    }
}

/// The position of the first device that is asked for.
fn find_wanted(devices: &Vec<String>, preferred: &Option<String>) -> (r: Option<usize>)
    ensures
        match r {
            Some(i) => i < devices@.len() && wanted_index(texts(devices@), opt_text(*preferred))
                == Some(i as int),
            None => wanted_index(texts(devices@), opt_text(*preferred)) is None,
        },
{
    let ghost d = texts(devices@);
    let ghost p = opt_text(*preferred);
    let mut found: Option<usize> = None;
    let mut i: usize = 0;
    while i < devices.len()
        invariant
            i <= devices@.len(),
            d == texts(devices@),
            p == opt_text(*preferred),
            match found {
                Some(k) => k < i && wanted_index(d.take(i as int), p) == Some(k as int),
                None => wanted_index(d.take(i as int), p) is None,
            },
        decreases devices@.len() - i,
    {
        assert(d.take(i + 1).drop_last() =~= d.take(i as int));
        assert(d.take(i + 1).last() == devices@[i as int]@);
        if found.is_none() {
            let wanted = is_blackhole_device(&devices[i]) && match preferred {
                Some(name) => str_eq_ignore_case(&devices[i], name),
                None => true,
            };
            if wanted {
                found = Some(i);
            }
        }
        i += 1;
    }
    assert(d.take(d.len() as int) =~= d);
    found
}

/// The loopback device to use.
pub fn find_loopback_device(devices: &Vec<String>, preferred: &Option<String>) -> (r: Option<
    String,
>)
    ensures
        opt_text(r) == loopback_device(texts(devices@), opt_text(*preferred)),
{
    if preferred.is_some() {
        if let Some(i) = find_wanted(devices, preferred) {
            return Some(devices[i].clone());
        }
    }
    match find_wanted(devices, &None) {
        Some(i) => Some(devices[i].clone()),
        None => None,
    }
}

/// A device that is found is one of the devices, and a loopback device.
pub proof fn law_loopback_device_is_a_blackhole_input(
    d: Seq<Seq<char>>,
    preferred: Option<Seq<char>>,
)
    ensures
        loopback_device(d, preferred) matches Some(name) ==> is_blackhole(name) && d.contains(name),
        loopback_device(d, preferred) is Some <==> exists|i: int|
            0 <= i < d.len() && is_blackhole(#[trigger] d[i]),
{
    lemma_wanted_index(d, None);
    if preferred is Some {
        lemma_wanted_index(d, preferred);
    }
}

/// The device found is one that is asked for; one is found where there is one.
proof fn lemma_wanted_index(d: Seq<Seq<char>>, preferred: Option<Seq<char>>)
    ensures
        wanted_index(d, preferred) matches Some(i) ==> 0 <= i < d.len() && is_wanted(
            d[i],
            preferred,
        ),
        wanted_index(d, preferred) is None ==> forall|i: int|
            0 <= i < d.len() ==> !is_wanted(#[trigger] d[i], preferred),
    decreases d.len(),
{
    if d.len() > 0 {
        lemma_wanted_index(d.drop_last(), preferred);
        if wanted_index(d, preferred) is None {
            assert forall|i: int| 0 <= i < d.len() implies !is_wanted(
                #[trigger] d[i],
                preferred,
            ) by {
                if i < d.len() - 1 {
                    assert(d.drop_last()[i] == d[i]);
                }
            }
        }
    }
}

/// The preferred device, where the environment names one.
pub fn preferred_device_name(value: Option<String>) -> (r: Option<String>)
    ensures
        opt_text(r) == match value {
            Some(v) => if trim(v@).len() > 0 {
                Some(trim(v@))
            } else {
                None
            },
            None => None,
        },
{
    match value {
        Some(v) => {
            let t = str_trim(&v);
            if t.as_str().is_empty() {
                None
            } else {
                Some(t)
            }
        },
        None => None,
    }
}

/// What stands between the first `pat` and the next one, or the end.
pub open spec fn second_piece(s: Seq<char>, pat: Seq<char>) -> Option<Seq<char>> {
    match split_once(s, pat) {
        Some((_, rest)) => Some(
            match split_once(rest, pat) {
                Some((a, _)) => a,
                None => rest,
            },
        ),
        None => None,
    }
}

/// What stands between the first `pat` and the next one, or the end.
fn find_second_piece(s: &str, pat: &str) -> (r: Option<String>)
    ensures
        opt_text(r) == second_piece(s@, pat@),
{
    match str_split_once(s, pat) {
        Some((_, rest)) => match str_split_once(&rest, pat) {
            Some((a, _)) => Some(a),
            None => Some(rest),
        },
        None => None,
    }
}

/// The name in a line of ffmpeg's device list.
pub open spec fn listed_name(line: Seq<char>) -> Option<Seq<char>> {
    match second_piece(line, "] ["@) {
        Some(tail) => match second_piece(tail, "] "@) {
            Some(name) => Some(trim(name)),
            None => None,
        },
        None => None,
    }
}

/// The audio devices listed in some lines, and whether the list of audio devices
/// is open at their end.
pub open spec fn listed_devices(l: Seq<Seq<char>>) -> (Seq<Seq<char>>, bool)
    decreases l.len(),
{
    if l.len() == 0 {
        (Seq::empty(), false)
    } else {
        let (found, open) = listed_devices(l.drop_last());
        let line = l.last();
        if contains(line, "AVFoundation audio devices"@) {
            (found, true)
        } else if contains(line, "AVFoundation video devices"@) {
            (found, false)
        } else if !open {
            (found, false)
        } else {
            match listed_name(line) {
                Some(name) => (found.push(name), true),
                None => (found, true),
            }
        }
    }
}

/// The audio devices in ffmpeg's device list.
pub fn parse_avfoundation_audio_devices(stderr: &str) -> (r: Vec<String>)
    ensures
        texts(r@) == listed_devices(lines(stderr@)).0,
{
    let l = str_lines(stderr);
    let ghost all = texts(l@);
    let mut devices: Vec<String> = Vec::new();
    let mut in_audio = false;
    let mut i: usize = 0;
    assert(texts(devices@) =~= Seq::<Seq<char>>::empty());
    while i < l.len()
        invariant
            i <= l@.len(),
            all == texts(l@),
            (texts(devices@), in_audio) == listed_devices(all.take(i as int)),
        decreases l@.len() - i,
    {
        broadcast use lemma_texts_push;

        assert(all.take(i + 1).drop_last() =~= all.take(i as int));
        assert(all.take(i + 1).last() == l@[i as int]@);
        if str_contains(&l[i], "AVFoundation audio devices") {
            in_audio = true;
        } else if str_contains(&l[i], "AVFoundation video devices") {
            in_audio = false;
        } else if in_audio {
            if let Some(tail) = find_second_piece(&l[i], "] [") {
                if let Some(name) = find_second_piece(&tail, "] ") {
                    devices.push(str_trim(&name));
                }
            }
        }
        i += 1;
    }
    assert(all.take(all.len() as int) =~= all);
    devices
}

/// The devices that ffmpeg's error stream lists, or why there are none.
pub fn listed_audio_devices(stderr: &str) -> (r: Result<Vec<String>, String>)
    ensures
        if contains(stderr@, "AVFoundation audio devices"@) {
            r matches Ok(d) && texts(d@) == listed_devices(lines(stderr@)).0
        } else {
            r matches Err(m) && m@
                == "ffmpeg AVFoundation device probe did not return an audio device list"@
        },
{
    if str_contains(stderr, "AVFoundation audio devices") {
        Ok(parse_avfoundation_audio_devices(stderr))
    } else {
        Err("ffmpeg AVFoundation device probe did not return an audio device list".to_owned())
    }
}

/// The ffmpeg input that stands for a device.
pub open spec fn avfoundation_input(device: Seq<char>) -> Seq<char> {
    if starts_with(device, ":"@) {
        device
    } else {
        ":"@ + device
    }
}

/// The ffmpeg input that stands for a device.
pub fn avfoundation_audio_input(device_name: &str) -> (r: String)
    ensures
        r@ == avfoundation_input(device_name@),
{
    if str_strip_prefix(device_name, ":").is_some() {
        device_name.to_owned()
    } else {
        cat2(":", device_name)
    }
}

/// A device that a selector stands for.
#[derive(Debug, PartialEq, Eq)]
pub struct DeviceMatch {
    /// The ffmpeg input, such as `:1`.
    pub avfoundation_input: String,
    /// The name of the device, where it is known.
    pub name: Option<String>,
}

/// The position of the first device with a name, whatever the case of its
/// letters.
pub open spec fn device_index(d: Seq<Seq<char>>, name: Seq<char>) -> Option<int>
    decreases d.len(),
{
    if d.len() == 0 {
        None
    } else {
        match device_index(d.drop_last(), name) {
            Some(i) => Some(i),
            None => if eq_ignore_case(d.last(), name) {
                Some(d.len() - 1)
            } else {
                None
            },
        }
    }
}

/// What a selector names: the text without white space around it and without one
/// leading colon.
pub open spec fn selector_name(selector: Seq<char>) -> Seq<char> {
    let t = trim(selector);
    if starts_with(t, ":"@) {
        t.skip(1)
    } else {
        t
    }
}

/// The device that a selector stands for: a number is taken as it is, with the
/// name listed under it; a name is looked up in the list.
pub open spec fn selected_device(selector: Seq<char>, d: Seq<Seq<char>>) -> Option<
    (Seq<char>, Option<Seq<char>>),
> {
    let name = selector_name(selector);
    match parsed_number(name, u32::MAX as nat) {
        Some(n) => Some(
            (
                ":"@ + name,
                if n < d.len() {
                    Some(d[n as int])
                } else {
                    None
                },
            ),
        ),
        None => match device_index(d, name) {
            Some(i) => Some((":"@ + decimal(i as nat), Some(d[i]))),
            None => None,
        },
    }
}

/// The position of the first device with a name.
fn find_device(devices: &Vec<String>, name: &str) -> (r: Option<usize>)
    ensures
        match r {
            Some(i) => i < devices@.len() && device_index(texts(devices@), name@) == Some(i as int),
            None => device_index(texts(devices@), name@) is None,
        },
{
    let ghost d = texts(devices@);
    let mut found: Option<usize> = None;
    let mut i: usize = 0;
    while i < devices.len()
        invariant
            i <= devices@.len(),
            d == texts(devices@),
            match found {
                Some(k) => k < i && device_index(d.take(i as int), name@) == Some(k as int),
                None => device_index(d.take(i as int), name@) is None,
            },
        decreases devices@.len() - i,
    {
        assert(d.take(i + 1).drop_last() =~= d.take(i as int));
        assert(d.take(i + 1).last() == devices@[i as int]@);
        if found.is_none() && str_eq_ignore_case(&devices[i], name) {
            found = Some(i);
        }
        i += 1;
    }
    assert(d.take(d.len() as int) =~= d);
    found
}

/// The device that a selector stands for.
pub fn resolve_avfoundation_audio_device(requested: &str, devices: &Vec<String>) -> (r: Result<
    DeviceMatch,
    String,
>)
    ensures
        match selected_device(requested@, texts(devices@)) {
            Some((input, name)) => r matches Ok(m) && m.avfoundation_input@ == input && opt_text(
                m.name,
            ) == name,
            None => r matches Err(m) && m@ == "audio input device not found: "@ + trim(
                requested@,
            ),
        },
{
    proof {
        reveal_strlit(":");
    }
    let t = str_trim(requested);
    let name = match str_strip_prefix(&t, ":") {
        Some(rest) => rest,
        None => t.clone(),
    };
    if let Some(n) = parse_number(&chars_of(&name), u32::MAX) {
        let listed = if (n as u64) < devices.len() as u64 {
            assert(texts(devices@)[n as int] == devices@[n as int]@);
            Some(devices[n as usize].clone())
        } else {
            None
        };
        return Ok(DeviceMatch { avfoundation_input: cat2(":", &name), name: listed });
    }
    match find_device(devices, &name) {
        Some(i) => {
            assert(texts(devices@)[i as int] == devices@[i as int]@);
            Ok(
                DeviceMatch {
                    avfoundation_input: cat2(":", &usize_text(i)),
                    name: Some(devices[i].clone()),
                },
            )
        },
        None => Err(cat2("audio input device not found: ", &t)),
    }
}

// ---------------------------------------------------------------------------
// The report
// ---------------------------------------------------------------------------

/// The first version of macOS that can tap its own audio.
pub open spec fn min_native_tap() -> MacOsVersion {
    MacOsVersion { major: 14, minor: 4, patch: 0 }
}

/// The version of macOS that a probe saw.
pub open spec fn seen_version(p: Platform) -> Option<MacOsVersion> {
    match p {
        Platform::MacOs(v) => v,
        Platform::Other(_) => None,
    }
}

/// Whether the system that a probe saw can tap its own audio.
pub open spec fn has_native_tap(p: Platform) -> bool {
    match seen_version(p) {
        Some(v) => v.is_at_least(min_native_tap()),
        None => false,
    }
}

/// Whether capture is available, its status, what is there and what to do.
pub open spec fn verdict(s: SystemAudioProbeSnapshot, present: bool) -> (
    bool,
    Seq<char>,
    Seq<char>,
    Seq<char>,
) {
    match s.platform {
        Platform::Other(name) => (
            false,
            "unsupported-os"@,
            "System-audio capture is scoped to macOS; current platform is "@ + name@ + "."@,
            "Use Comlink system-audio capture diagnostics on macOS."@,
        ),
        Platform::MacOs(_) => if present {
            (
                true,
                "ok"@,
                "BlackHole virtual audio input is visible to AVFoundation."@,
                "Route meeting output through a Multi-Output or Aggregate Device that includes BlackHole, then capture the BlackHole input alongside the microphone in a future phase."@,
            )
        } else {
            match s.probe_error {
                Some(e) => (
                    false,
                    "probe-error"@,
                    e@,
                    "Install/configure ffmpeg, then rerun `comlink doctor --format json`; if BlackHole is installed, confirm it appears as an AVFoundation audio input."@,
                ),
                None => (
                    false,
                    "missing-dependency"@,
                    "No BlackHole virtual audio input was detected in AVFoundation devices."@,
                    "Install BlackHole 2ch or 16ch, create a Multi-Output or Aggregate Device for speakers plus BlackHole, and rerun doctor. If COMLINK_SYSTEM_AUDIO_DEVICE is set, it must name a detected BlackHole input."@,
                ),
            }
        },
    }
}

/// What is said of the permissions.
pub open spec fn are_permissions(present: bool, p: SystemAudioPermissions) -> bool {
    &&& p.microphone.status@ == "manual-check"@
    &&& p.microphone.detail@ == "Mic capture uses FFmpeg AVFoundation and requires the terminal or parent app to have macOS Microphone permission."@
    &&& p.microphone.remediation@ == "Grant Microphone permission in macOS Privacy & Security to the terminal or app launching Comlink; rerun `comlink meet start --source mic-only` as a smoke test."@
    &&& p.system_audio_routing.status@ == if present {
        "device-visible"@
    } else {
        "setup-required"@
    }
    &&& p.system_audio_routing.detail@ == if present {
        "BlackHole is visible as a local audio input; Comlink still depends on the user routing Teams/Zoom output into BlackHole."@
    } else {
        "BlackHole is not visible as a local audio input, so system audio cannot be captured through the Phase 9 adapter."@
    }
    &&& p.system_audio_routing.remediation@ == "Install BlackHole 2ch, include it in a Multi-Output or Aggregate Device with your speakers/headphones, then select that output in macOS or the meeting app."@
}

/// What is said of the system's own capture.
pub open spec fn is_tap(supported: bool, t: NativeCoreAudioTap) -> bool {
    &&& t.supported_by_os == supported
    &&& t.minimum_macos@ == min_native_tap().written()
    &&& t.permission_model@ == "Requires macOS system audio recording consent; doctor does not request or bypass TCC."@
    &&& t.detail@ == if supported {
        "Native Core Audio process taps are a future no-driver option, but are not the Phase 8 recommendation."@
    } else {
        "Native Core Audio process taps require a newer macOS than this probe observed."@
    }
}

/// Whether `r` is the report on a snapshot.
pub open spec fn is_report(
    s: SystemAudioProbeSnapshot,
    preferred: Option<Seq<char>>,
    r: SystemAudioReport,
) -> bool {
    let device = loopback_device(texts(s.audio_input_devices@), preferred);
    let v = verdict(s, device is Some);
    &&& r.available == v.0
    &&& r.status@ == v.1
    &&& r.strategy@ == "blackhole-virtual-audio-device"@
    &&& r.detail@ == v.2
    &&& r.remediation@ == v.3
    &&& opt_text(r.macos_version) == match seen_version(s.platform) {
        Some(x) => Some(x.written()),
        None => None,
    }
    &&& r.dependency.name@ == "BlackHole virtual audio device"@
    &&& r.dependency.present == device is Some
    &&& opt_text(r.dependency.device_name) == device
    &&& r.dependency.detail@ == "Chosen Phase 8 dependency for local Zoom/Teams system audio routing."@
    &&& are_permissions(device is Some, r.permissions)
    &&& is_tap(has_native_tap(s.platform), r.native_core_audio_tap)
    &&& texts(r.source_metadata.labels@) == seq!["user_mic"@, "system_audio"@, "mixed"@]
    &&& texts(r.source_metadata.modes@) == seq![
        "mic-only"@,
        "system-only"@,
        "mic-plus-system"@,
    ]
    &&& r.source_metadata.mixed_source_label@ == "mixed"@
}

/// Three strings in a list.
fn three(a: &str, b: &str, c: &str) -> (r: Vec<String>)
    ensures
        texts(r@) == seq![a@, b@, c@],
{
    let mut r: Vec<String> = Vec::new();
    r.push(a.to_owned());
    r.push(b.to_owned());
    r.push(c.to_owned());
    assert(texts(r@) =~= seq![a@, b@, c@]);
    r
}

/// What is said of the permissions.
fn permissions(present: bool) -> (r: SystemAudioPermissions)
    ensures
        are_permissions(present, r),
{
    SystemAudioPermissions {
        microphone: PermissionDiagnostic {
            status: "manual-check".to_owned(),
            detail: "Mic capture uses FFmpeg AVFoundation and requires the terminal or parent app to have macOS Microphone permission.".to_owned(),
            remediation: "Grant Microphone permission in macOS Privacy & Security to the terminal or app launching Comlink; rerun `comlink meet start --source mic-only` as a smoke test.".to_owned(),
        },
        system_audio_routing: PermissionDiagnostic {
            status: if present {
                "device-visible".to_owned()
            } else {
                "setup-required".to_owned()
            },
            detail: if present {
                "BlackHole is visible as a local audio input; Comlink still depends on the user routing Teams/Zoom output into BlackHole.".to_owned()
            } else {
                "BlackHole is not visible as a local audio input, so system audio cannot be captured through the Phase 9 adapter.".to_owned()
            },
            remediation: "Install BlackHole 2ch, include it in a Multi-Output or Aggregate Device with your speakers/headphones, then select that output in macOS or the meeting app.".to_owned(),
        },
    }
}

/// What is said of the system's own capture.
fn native_tap(supported: bool) -> (r: NativeCoreAudioTap)
    ensures
        is_tap(supported, r),
{
    NativeCoreAudioTap {
        supported_by_os: supported,
        minimum_macos: MacOsVersion::new(14, 4, 0).text(),
        permission_model: "Requires macOS system audio recording consent; doctor does not request or bypass TCC.".to_owned(),
        detail: if supported {
            "Native Core Audio process taps are a future no-driver option, but are not the Phase 8 recommendation.".to_owned()
        } else {
            "Native Core Audio process taps require a newer macOS than this probe observed.".to_owned()
        },
    }
}

/// The report on a snapshot.
pub fn report_from_snapshot(snapshot: SystemAudioProbeSnapshot, preferred: Option<String>) -> (r:
    SystemAudioReport)
    ensures
        is_report(snapshot, opt_text(preferred), r),
{
    let device = find_loopback_device(&snapshot.audio_input_devices, &preferred);
    let present = device.is_some();
    let (macos_version, native_supported) = match &snapshot.platform {
        Platform::MacOs(Some(v)) => (Some(v.text()), v.at_least(&MacOsVersion::new(14, 4, 0))),
        _ => (None, false),
    };
    let (available, status, detail, remediation) = match &snapshot.platform {
        Platform::Other(name) => (
            false,
            "unsupported-os",
            cat3("System-audio capture is scoped to macOS; current platform is ", name, "."),
            "Use Comlink system-audio capture diagnostics on macOS.",
        ),
        Platform::MacOs(_) => if present {
            (
                true,
                "ok",
                "BlackHole virtual audio input is visible to AVFoundation.".to_owned(),
                "Route meeting output through a Multi-Output or Aggregate Device that includes BlackHole, then capture the BlackHole input alongside the microphone in a future phase.",
            )
        } else {
            match &snapshot.probe_error {
                Some(e) => (
                    false,
                    "probe-error",
                    e.clone(),
                    "Install/configure ffmpeg, then rerun `comlink doctor --format json`; if BlackHole is installed, confirm it appears as an AVFoundation audio input.",
                ),
                None => (
                    false,
                    "missing-dependency",
                    "No BlackHole virtual audio input was detected in AVFoundation devices.".to_owned(),
                    "Install BlackHole 2ch or 16ch, create a Multi-Output or Aggregate Device for speakers plus BlackHole, and rerun doctor. If COMLINK_SYSTEM_AUDIO_DEVICE is set, it must name a detected BlackHole input.",
                ),
            }
        },
    };
    SystemAudioReport {
        available,
        status: status.to_owned(),
        strategy: "blackhole-virtual-audio-device".to_owned(),
        detail,
        remediation: remediation.to_owned(),
        macos_version,
        dependency: SystemAudioDependency {
            name: "BlackHole virtual audio device".to_owned(),
            present,
            device_name: device,
            detail: "Chosen Phase 8 dependency for local Zoom/Teams system audio routing.".to_owned(),
        },
        permissions: permissions(present),
        native_core_audio_tap: native_tap(native_supported),
        source_metadata: SourceMetadataPrototype {
            labels: three("user_mic", "system_audio", "mixed"),
            modes: three("mic-only", "system-only", "mic-plus-system"),
            mixed_source_label: "mixed".to_owned(),
        },
    }
}

/// System audio is reported available exactly on macOS with a loopback input, and
/// a microphone that is named as the preferred device is not one.
pub proof fn law_available_needs_macos_and_blackhole(
    s: SystemAudioProbeSnapshot,
    preferred: Option<Seq<char>>,
    r: SystemAudioReport,
)
    requires
        is_report(s, preferred, r),
    ensures
        r.available <==> s.platform is MacOs && exists|i: int|
            0 <= i < s.audio_input_devices@.len() && is_blackhole(
                (#[trigger] s.audio_input_devices@[i])@,
            ),
        r.available ==> r.dependency.present && r.dependency.device_name is Some,
{
    let d = texts(s.audio_input_devices@);
    law_loopback_device_is_a_blackhole_input(d, preferred);
    if exists|i: int| 0 <= i < d.len() && is_blackhole(#[trigger] d[i]) {
        let i = choose|i: int| 0 <= i < d.len() && is_blackhole(#[trigger] d[i]);
        assert(is_blackhole(s.audio_input_devices@[i]@));
    }
    if exists|i: int|
        0 <= i < s.audio_input_devices@.len() && is_blackhole(
            (#[trigger] s.audio_input_devices@[i])@,
        ) {
        let i = choose|i: int|
            0 <= i < s.audio_input_devices@.len() && is_blackhole(
                (#[trigger] s.audio_input_devices@[i])@,
            );
        assert(is_blackhole(d[i]));
    }
}

/// The report on what a probe sees.
pub fn inspect_with_probe<P: SystemAudioProbe>(probe: &P, preferred: Option<String>) -> (r:
    SystemAudioReport)
    ensures
        exists|s: SystemAudioProbeSnapshot|
            #[trigger] call_ensures(P::snapshot, (probe,), s) && is_report(
                s,
                opt_text(preferred),
                r,
            ),
{
    report_from_snapshot(probe.snapshot(), preferred)
}

/// A device to capture system audio from.
#[derive(Debug, PartialEq, Eq)]
pub struct SystemAudioCapturePlan {
    pub device_name: String,
    pub avfoundation_input: String,
}

/// The capture plan that a report gives, or what stands in the way.
pub fn plan_from_report(report: SystemAudioReport) -> (r: Result<SystemAudioCapturePlan, String>)
    ensures
        match report.dependency.device_name {
            Some(name) => r matches Ok(p) && p.device_name == name && p.avfoundation_input@
                == avfoundation_input(name@),
            None => r matches Err(m) && m@ == strip_end(report.detail@, CharClass::Is('.')) + " "@
                + report.remediation@,
        },
{
    match report.dependency.device_name {
        Some(name) => Ok(
            SystemAudioCapturePlan {
                avfoundation_input: avfoundation_audio_input(&name),
                device_name: name,
            },
        ),
        None => Err(
            cat3(&str_strip_end(&report.detail, CharClass::Is('.')), " ", &report.remediation),
        ),
    }
}

/// The capture plan for what a probe sees. There is one exactly where the report
/// names a device.
pub fn resolve_capture_plan<P: SystemAudioProbe>(probe: &P, preferred: Option<String>) -> (r:
    Result<SystemAudioCapturePlan, String>)
    ensures
        exists|s: SystemAudioProbeSnapshot|
            #[trigger] call_ensures(P::snapshot, (probe,), s) && match loopback_device(
                texts(s.audio_input_devices@),
                opt_text(preferred),
            ) {
                Some(name) => r matches Ok(p) && p.device_name@ == name && p.avfoundation_input@
                    == avfoundation_input(name),
                None => r matches Err(m) && m@ == strip_end(
                    verdict(s, false).2,
                    CharClass::Is('.'),
                ) + " "@ + verdict(s, false).3,
            },
{
    let report = inspect_with_probe(probe, preferred);
    plan_from_report(report)
}

/// A snapshot for trials, chosen by a word.
pub open spec fn is_fake(value: Seq<char>, s: SystemAudioProbeSnapshot) -> bool {
    let mac = s.platform == Platform::MacOs(
        Some(MacOsVersion { major: 14, minor: 5, patch: 0 }),
    );
    let devices = texts(s.audio_input_devices@);
    if value == "available"@ {
        mac && devices == seq!["BlackHole 2ch"@, "MacBook Pro Microphone"@] && s.probe_error is None
    } else if value == "missing"@ || value == "unavailable"@ {
        mac && devices == seq!["MacBook Pro Microphone"@] && s.probe_error is None
    } else if value == "wrong-os"@ || value == "unsupported-os"@ {
        (s.platform matches Platform::Other(name) && name@ == "linux"@) && devices.len() == 0
            && s.probe_error is None
    } else if value == "probe-error"@ {
        mac && devices.len() == 0 && opt_text(s.probe_error) == Some(
            "fake AVFoundation device probe failed"@,
        )
    } else {
        mac && devices.len() == 0 && opt_text(s.probe_error) == Some(
            "unknown COMLINK_SYSTEM_AUDIO_FAKE value: "@ + value,
        )
    }
}

/// A snapshot for trials, chosen by a word.
pub fn fake_snapshot(value: &str) -> (r: SystemAudioProbeSnapshot)
    ensures
        is_fake(value@, r),
{
    let mut devices: Vec<String> = Vec::new();
    let platform = Platform::MacOs(Some(MacOsVersion::new(14, 5, 0)));
    if str_eq(value, "available") {
        devices.push("BlackHole 2ch".to_owned());
        devices.push("MacBook Pro Microphone".to_owned());
        assert(texts(devices@) =~= seq!["BlackHole 2ch"@, "MacBook Pro Microphone"@]);
        SystemAudioProbeSnapshot { platform, audio_input_devices: devices, probe_error: None }
    } else if str_eq(value, "missing") || str_eq(value, "unavailable") {
        devices.push("MacBook Pro Microphone".to_owned());
        assert(texts(devices@) =~= seq!["MacBook Pro Microphone"@]);
        SystemAudioProbeSnapshot { platform, audio_input_devices: devices, probe_error: None }
    } else if str_eq(value, "wrong-os") || str_eq(value, "unsupported-os") {
        SystemAudioProbeSnapshot {
            platform: Platform::Other("linux".to_owned()),
            audio_input_devices: devices,
            probe_error: None,
        }
    } else if str_eq(value, "probe-error") {
        SystemAudioProbeSnapshot {
            platform,
            audio_input_devices: devices,
            probe_error: Some("fake AVFoundation device probe failed".to_owned()),
        }
    } else {
        SystemAudioProbeSnapshot {
            platform,
            audio_input_devices: devices,
            probe_error: Some(cat2("unknown COMLINK_SYSTEM_AUDIO_FAKE value: ", value)),
        }
    }
}

/// What a probe of the system saw: on macOS the devices that ffmpeg listed, or
/// why they were not listed; elsewhere nothing.
pub fn snapshot_of(platform: Platform, listed: Option<Result<Vec<String>, String>>) -> (r:
    SystemAudioProbeSnapshot)
    ensures
        r.platform == platform,
        match platform {
            Platform::Other(_) => r.audio_input_devices@.len() == 0 && r.probe_error is None,
            Platform::MacOs(_) => match listed {
                Some(Ok(d)) => r.audio_input_devices == d && r.probe_error is None,
                Some(Err(e)) => r.audio_input_devices@.len() == 0 && r.probe_error == Some(e),
                None => r.audio_input_devices@.len() == 0 && opt_text(r.probe_error) == Some(
                    "ffmpeg is unavailable, so AVFoundation audio devices were not listed"@,
                ),
            },
        },
{
    match platform {
        Platform::Other(name) => SystemAudioProbeSnapshot {
            platform: Platform::Other(name),
            audio_input_devices: Vec::new(),
            probe_error: None,
        },
        Platform::MacOs(version) => {
            let (audio_input_devices, probe_error) = match listed {
                Some(Ok(d)) => (d, None),
                Some(Err(e)) => (Vec::new(), Some(e)),
                None => (
                    Vec::new(),
                    Some(
                        "ffmpeg is unavailable, so AVFoundation audio devices were not listed".to_owned(),
                    ),
                ),
            };
            SystemAudioProbeSnapshot {
                platform: Platform::MacOs(version),
                audio_input_devices,
                probe_error,
            }
        },
    }
}

/// The probe that asks ffmpeg for the devices of this machine.
#[derive(Debug, Clone)]
pub struct RealSystemAudioProbe {
    pub ffmpeg: Option<String>,
}

impl RealSystemAudioProbe {
    /// The probe with the ffmpeg that was found, if any.
    pub fn new(dependencies: &crate::deps::DependencyReport) -> (r: Self)
        ensures
            opt_text(r.ffmpeg) == match dependencies.ffmpeg {
                crate::deps::DependencyState::Found(p) => Some(p@),
                _ => None,
            },
    {
        RealSystemAudioProbe {
            ffmpeg: match &dependencies.ffmpeg {
                crate::deps::DependencyState::Found(p) => Some(p.clone()),
                _ => None,
            },
        }
    }

    /// The probe with a given ffmpeg.
    pub fn from_ffmpeg(ffmpeg: String) -> (r: Self)
        ensures
            r.ffmpeg == Some(ffmpeg),
    {
        RealSystemAudioProbe { ffmpeg: Some(ffmpeg) }
    }
}

/// Whether a text holds no square bracket.
pub open spec fn is_unbracketed(s: Seq<char>) -> bool {
    forall|i: int| 0 <= i < s.len() ==> #[trigger] s[i] != '[' && s[i] != ']'
}

/// A line of ffmpeg's device list gives the name behind its second bracket.
proof fn lemma_listed_name(pre: Seq<char>, k: Seq<char>, name: Seq<char>)
    requires
        forall|i: int| 0 <= i < pre.len() ==> #[trigger] pre[i] != ']',
        is_unbracketed(k),
        is_unbracketed(name),
    ensures
        listed_name(pre + "] ["@ + k + "] "@ + name) == Some(trim(name)),
{
    reveal_strlit("] [");
    reveal_strlit("] ");
    let line = pre + "] ["@ + k + "] "@ + name;
    let rest = k + "] "@ + name;
    assert(line =~= pre + "] ["@ + rest);
    lemma_split_once(pre, "] ["@, rest);
    if let Some(i) = find(rest, "] ["@) {
        assert(first_at(rest, "] ["@, i));
        assert(rest.subrange(i, i + 3)[0] == rest[i]);
        assert(rest.subrange(i, i + 3)[2] == rest[i + 2]);
        if i < k.len() {
            assert(rest[i] == k[i]);
        } else if i == k.len() {
            assert(rest[i + 2] == name[0]);
        } else if i > k.len() + 1 {
            assert(rest[i] == name[i - k.len() - 2]);
        }
        assert(false);
    }
    assert(second_piece(line, "] ["@) == Some(rest));
    lemma_split_once(k, "] "@, name);
    lemma_no_split_once(name, "] "@);
}

/// In the list of audio devices each line gives a device; the lines before the list, and
/// those on video devices, give none.
pub proof fn law_audio_devices_are_listed(
    l: Seq<Seq<char>>,
    pre: Seq<char>,
    k: Seq<char>,
    name: Seq<char>,
)
    requires
        forall|i: int| 0 <= i < pre.len() ==> #[trigger] pre[i] != ']',
        is_unbracketed(k),
        is_unbracketed(name),
        !contains(pre + "] ["@ + k + "] "@ + name, "AVFoundation audio devices"@),
        !contains(pre + "] ["@ + k + "] "@ + name, "AVFoundation video devices"@),
    ensures
        ({
            let line = pre + "] ["@ + k + "] "@ + name;
            &&& listed_devices(l).1 ==> listed_devices(l.push(line)) == (
                listed_devices(l).0.push(trim(name)),
                true,
            )
            &&& !listed_devices(l).1 ==> listed_devices(l.push(line)) == (
                listed_devices(l).0,
                false,
            )
        }),
        listed_devices(l.push("AVFoundation audio devices:"@)) == (listed_devices(l).0, true),
        listed_devices(l.push("AVFoundation video devices:"@)) == (listed_devices(l).0, false),
        !listed_devices(Seq::empty()).1,
{
    let line = pre + "] ["@ + k + "] "@ + name;
    lemma_listed_name(pre, k, name);
    assert(l.push(line).drop_last() =~= l);
    let h = "AVFoundation audio devices:"@;
    assert(l.push(h).drop_last() =~= l);
    reveal_strlit("AVFoundation audio devices:");
    reveal_strlit("AVFoundation audio devices");
    assert(h.subrange(0, 26) =~= "AVFoundation audio devices"@);
    assert(occurs_at(h, "AVFoundation audio devices"@, 0));
    let v = "AVFoundation video devices:"@;
    assert(l.push(v).drop_last() =~= l);
    reveal_strlit("AVFoundation video devices:");
    reveal_strlit("AVFoundation video devices");
    assert(v.subrange(0, 26) =~= "AVFoundation video devices"@);
    assert(occurs_at(v, "AVFoundation video devices"@, 0));
    assert(!contains(v, "AVFoundation audio devices"@)) by {
        if contains(v, "AVFoundation audio devices"@) {
            let i = choose|i: int| occurs_at(v, "AVFoundation audio devices"@, i);
            assert(v.subrange(i, i + 26)[13] == v[i + 13]);
            assert("AVFoundation audio devices"@[13] == 'a');
            assert(v[13] == 'v' && v[14] == 'i');
        }
    }
}

/// The device found by its name is the first of that name.
proof fn lemma_device_index(d: Seq<Seq<char>>, name: Seq<char>)
    ensures
        match device_index(d, name) {
            Some(i) => 0 <= i < d.len() && eq_ignore_case(d[i], name) && forall|j: int|
                0 <= j < i ==> !eq_ignore_case(#[trigger] d[j], name),
            None => forall|j: int| 0 <= j < d.len() ==> !eq_ignore_case(#[trigger] d[j], name),
        },
    decreases d.len(),
{
    if d.len() > 0 {
        let t = d.drop_last();
        lemma_device_index(t, name);
        assert forall|j: int| 0 <= j < t.len() implies #[trigger] d[j] == t[j] by {}
    }
}

/// A device is chosen by its name, in any case of its letters, and then opened by its place
/// in the list; or by its place, which is taken as it is.
pub proof fn law_devices_by_name_or_place(d: Seq<Seq<char>>, i: int, n: nat)
    ensures
        0 <= i < d.len() && trim(d[i]) == d[i] && parsed_number(d[i], u32::MAX as nat) is None
            && !starts_with(d[i], ":"@) && (forall|j: int|
            0 <= j < i ==> !eq_ignore_case(#[trigger] d[j], d[i])) ==> selected_device(d[i], d)
            == Some((":"@ + decimal(i as nat), Some(d[i]))),
        n <= u32::MAX && n < d.len() ==> selected_device(decimal(n), d) == Some(
            (":"@ + decimal(n), Some(d[n as int])),
        ),
        n <= u32::MAX && n >= d.len() ==> selected_device(decimal(n), d) == Some(
            (":"@ + decimal(n), None::<Seq<char>>),
        ),
{
    if 0 <= i < d.len() && trim(d[i]) == d[i] && !starts_with(d[i], ":"@) {
        lemma_device_index(d, d[i]);
        if let Some(k) = device_index(d, d[i]) {
            let x = d[k];
        }
    }
    if n <= u32::MAX {
        let x = decimal(n);
        law_decimal_round_trip(n, u32::MAX as nat);
        lemma_decimal_is_digits(n);
        let (a, b) = law_trim_cuts_the_edges(x);
        assert(is_digit(x[0]) && is_digit(x[x.len() - 1]));
        assert(a == 0) by {
            if a > 0 {
                assert(is_white(x[0]));
            }
        }
        assert(b == x.len()) by {
            if b < x.len() {
                assert(is_white(x[x.len() - 1]));
            }
        }
        assert(x.subrange(0, x.len() as int) =~= x);
        reveal_strlit(":");
        assert(!starts_with(x, ":"@)) by {
            assert(x.take(1)[0] == x[0]);
        }
    }
}

/// The loopback device that is wanted is the first.
proof fn lemma_first_wanted(d: Seq<Seq<char>>, preferred: Option<Seq<char>>)
    ensures
        match wanted_index(d, preferred) {
            Some(i) => 0 <= i < d.len() && is_wanted(d[i], preferred) && forall|j: int|
                0 <= j < i ==> !is_wanted(#[trigger] d[j], preferred),
            None => forall|j: int| 0 <= j < d.len() ==> !is_wanted(#[trigger] d[j], preferred),
        },
    decreases d.len(),
{
    if d.len() > 0 {
        let t = d.drop_last();
        lemma_first_wanted(t, preferred);
        assert forall|j: int| 0 <= j < t.len() implies #[trigger] d[j] == t[j] by {}
    }
}

/// A device is a loopback device where its name holds that of BlackHole, in any case of its
/// letters. The preferred one is used where it is there, else the first of them.
pub proof fn law_preferred_loopback_device(
    d: Seq<Seq<char>>,
    preferred: Option<Seq<char>>,
    i: int,
    a: Seq<char>,
    x: Seq<char>,
    b: Seq<char>,
)
    ensures
        eq_ignore_case(x, "blackhole"@) ==> is_blackhole(a + x + b),
        preferred matches Some(p) ==> (0 <= i < d.len() && is_blackhole(d[i]) && eq_ignore_case(
            d[i],
            p,
        ) ==> (loopback_device(d, preferred) matches Some(name) && eq_ignore_case(name, p))),
        preferred is None && 0 <= i < d.len() && is_blackhole(d[i]) && (forall|j: int|
            0 <= j < i ==> !is_blackhole(#[trigger] d[j])) ==> loopback_device(d, preferred) == Some(
            d[i],
        ),
{
    reveal_strlit("blackhole");
    assert(lower("blackhole"@) =~= "blackhole"@);
    let s = a + x + b;
    let n = a.len() as int;
    assert(lower(s).subrange(n, (n + x.len()) as int) =~= lower(x));
    assert(occurs_at(lower(s), lower(x), n));
    lemma_first_wanted(d, preferred);
    lemma_first_wanted(d, None);
    if 0 <= i < d.len() {
        let y = d[i];
        if let Some(k) = wanted_index(d, None) {
            let z = d[k];
        }
    }
}

/// Versions are compared by their first part, then their second, then their third; taps of
/// the system's own sound need macOS 14.4.
pub proof fn law_versions_in_order(v: MacOsVersion, w: MacOsVersion)
    ensures
        v.major > w.major ==> v.is_at_least(w) && !w.is_at_least(v),
        v.major == w.major && v.minor > w.minor ==> v.is_at_least(w) && !w.is_at_least(v),
        v.major == w.major && v.minor == w.minor && v.patch > w.patch ==> v.is_at_least(w)
            && !w.is_at_least(v),
        v.is_at_least(v),
        has_native_tap(Platform::MacOs(Some(v))) <==> v.major > 14 || v.major == 14 && v.minor >= 4,
        !has_native_tap(Platform::MacOs(None)),
{
}

/// A report calls the sound of the system available, missing, out of reach of the system, or
/// not to be told, as the case is; and a probe that failed is told with its error.
pub proof fn law_verdicts(s: SystemAudioProbeSnapshot, present: bool)
    ensures
        s.platform is Other ==> verdict(s, present).1 == "unsupported-os"@ && !verdict(s, present).0,
        s.platform is MacOs && present ==> verdict(s, present).0 && verdict(s, present).1 == "ok"@,
        s.platform is MacOs && !present && s.probe_error is None ==> !verdict(s, present).0
            && verdict(s, present).1 == "missing-dependency"@,
        s.platform is MacOs && !present ==> (s.probe_error matches Some(e) ==> !verdict(
            s,
            present,
        ).0 && verdict(s, present).1 == "probe-error"@ && verdict(s, present).2 == e@),
{
}

} // verus!
