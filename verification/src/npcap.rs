//! Npcap / WinPcap detection: the packet-capture DLL in one of its install
//! locations.

use crate::text::{
    before_char, chars_contain, chars_of, contains_chars, find_char, string_from_chars,
    to_lowercase, unicode_lower,
};
use vstd::prelude::*;

verus! {

/// Official free-edition installer.
pub const NPCAP_INSTALLER_URL: &'static str = "https://npcap.com/dist/npcap-1.88.exe";

/// Filename used under the system temp directory.
pub const NPCAP_INSTALLER_NAME: &'static str = "npcap-1.88.exe";

/// Calls `Path::is_file`: whether a regular file exists at `path`. Nothing
/// is promised about the answer, which depends on the disk.
#[verifier::external_body]
fn path_is_file(path: &str) -> (found: bool) {
    std::path::Path::new(path).is_file()
}

/// Npcap counts as installed when `wpcap.dll` is found in any of its
/// locations (Npcap's own folder, System32, or the 32-bit Npcap folder).
pub fn npcap_found(in_npcap_dir: bool, in_system32: bool, in_syswow64_npcap: bool) -> (r: bool)
    ensures
        r == (in_npcap_dir || in_system32 || in_syswow64_npcap),
{
    in_npcap_dir || in_system32 || in_syswow64_npcap
}

/// The three places `wpcap.dll` is looked for: Npcap's own folder, System32
/// (legacy WinPcap or Npcap in compatible mode) and the 32-bit Npcap folder.
pub fn npcap_dll_paths() -> (p: [&'static str; 3])
    ensures
        p[0]@ == "C:\\Windows\\System32\\Npcap\\wpcap.dll"@,
        p[1]@ == "C:\\Windows\\System32\\wpcap.dll"@,
        p[2]@ == "C:\\Windows\\SysWOW64\\Npcap\\wpcap.dll"@,
{
    [
        "C:\\Windows\\System32\\Npcap\\wpcap.dll",
        "C:\\Windows\\System32\\wpcap.dll",
        "C:\\Windows\\SysWOW64\\Npcap\\wpcap.dll",
    ]
}

/// True when `wpcap.dll` is present (Npcap or legacy WinPcap) in one of
/// [`npcap_dll_paths`], as [`npcap_found`] combines the three probes. The
/// capture driver exists only on Windows: elsewhere the answer is false and
/// nothing is probed. Whether the files exist depends on the disk.
pub fn npcap_installed(on_windows: bool) -> (r: bool)
    ensures
        r ==> on_windows,
{
    if !on_windows {
        return false;
    }
    let paths = npcap_dll_paths();
    let a = path_is_file(paths[0]);
    let b = path_is_file(paths[1]);
    let c = path_is_file(paths[2]);
    npcap_found(a, b, c)
}

/// Whether a capture-device line (`device|description`) belongs to the
/// adapter: its lower-cased text contains the adapter's lower-cased name.
pub open spec fn device_line_matches(line: Seq<char>, adapter: Seq<char>) -> bool {
    contains_chars(unicode_lower(line), unicode_lower(adapter))
}

/// `i` is the first of `lines` that belongs to the adapter.
pub open spec fn is_first_device(lines: Seq<String>, adapter: Seq<char>, i: int) -> bool {
    &&& 0 <= i < lines.len()
    &&& device_line_matches(lines[i]@, adapter)
    &&& forall|j: int| 0 <= j < i ==> !device_line_matches(#[trigger] lines[j]@, adapter)
}

/// When the adapter's own name does not open for capture, the device to try
/// instead: of the first listed line that belongs to the adapter, the part
/// before '|' (the capture device's name); none when no line belongs to it.
pub fn capture_device_for(device_lines: &[String], adapter: &str) -> (r: Option<String>)
    ensures
        match r {
            Some(d) => exists|i: int|
                is_first_device(device_lines@, adapter@, i) && d@ == before_char(
                    #[trigger] device_lines@[i]@,
                    '|',
                ),
            None => forall|i: int|
                0 <= i < device_lines@.len() ==> !device_line_matches(
                    #[trigger] device_lines@[i]@,
                    adapter@,
                ),
        },
{
    let want_text = to_lowercase(adapter);
    let want = chars_of(want_text.as_str());
    let mut k: usize = 0;
    while k < device_lines.len()
        invariant
            k <= device_lines@.len(),
            want@ == unicode_lower(adapter@),
            forall|j: int| 0 <= j < k ==> !device_line_matches(#[trigger] device_lines@[j]@, adapter@),
        decreases device_lines@.len() - k,
    {
        let lower_text = to_lowercase(device_lines[k].as_str());
        let lower = chars_of(lower_text.as_str());
        if chars_contain(lower.as_slice(), want.as_slice()) {
            let line = chars_of(device_lines[k].as_str());
            let n = line.len();
            let name = match find_char(line.as_slice(), '|') {
                Some(i) => vstd::slice::slice_subrange(line.as_slice(), 0, i),
                None => vstd::slice::slice_subrange(line.as_slice(), 0, n),
            };
            assert(line@.subrange(0, n as int) =~= line@);
            let d = string_from_chars(name);
            assert(is_first_device(device_lines@, adapter@, k as int));
            return Some(d);
        }
        k = k + 1;
    }
    None
}

/// A capture device as the driver lists it.
pub struct CaptureDevice {
    /// Device name (`\Device\NPF_{…}` on Windows).
    pub name: String,
    /// Human description, if any.
    pub desc: Option<String>,
}

/// Whether a listed device is the one asked for (case ignored as
/// `to_lowercase` does): its name or description contains the wanted text,
/// or the wanted text contains its name. (Equal texts contain each other.)
pub open spec fn device_matches(name: Seq<char>, desc: Option<Seq<char>>, want: Seq<char>) -> bool {
    let n = unicode_lower(name);
    let d = unicode_lower(
        match desc {
            Some(x) => x,
            None => Seq::empty(),
        },
    );
    let w = unicode_lower(want);
    contains_chars(n, w) || contains_chars(d, w) || contains_chars(w, n)
}

/// The device opened for capture: the first listed one that matches.
pub fn pick_capture_device(devices: &[CaptureDevice], want: &str) -> (r: Option<usize>)
    ensures
        match r {
            Some(k) => k < devices@.len() && device_matches(
                devices@[k as int].name@,
                crate::state::opt_text(devices@[k as int].desc),
                want@,
            ) && forall|j: int|
                0 <= j < k ==> !device_matches(
                    #[trigger] devices@[j].name@,
                    crate::state::opt_text(devices@[j].desc),
                    want@,
                ),
            None => forall|j: int|
                0 <= j < devices@.len() ==> !device_matches(
                    #[trigger] devices@[j].name@,
                    crate::state::opt_text(devices@[j].desc),
                    want@,
                ),
        },
{
    let want_text = to_lowercase(want);
    let w = chars_of(want_text.as_str());
    let mut k: usize = 0;
    while k < devices.len()
        invariant
            k <= devices@.len(),
            w@ == unicode_lower(want@),
            forall|j: int|
                0 <= j < k ==> !device_matches(
                    #[trigger] devices@[j].name@,
                    crate::state::opt_text(devices@[j].desc),
                    want@,
                ),
        decreases devices@.len() - k,
    {
        let name_text = to_lowercase(devices[k].name.as_str());
        let n = chars_of(name_text.as_str());
        let desc_text = match &devices[k].desc {
            Some(d) => to_lowercase(d.as_str()),
            None => to_lowercase(""),
        };
        let d = chars_of(desc_text.as_str());
        proof {
            reveal_strlit("");
            match devices@[k as int].desc {
                Some(x) => {},
                None => {
                    assert(""@ =~= Seq::<char>::empty());
                },
            }
        }
        if chars_contain(n.as_slice(), w.as_slice()) || chars_contain(d.as_slice(), w.as_slice())
            || chars_contain(w.as_slice(), n.as_slice()) {
            return Some(k);
        }
        k = k + 1;
    }
    None
}

} // verus!
