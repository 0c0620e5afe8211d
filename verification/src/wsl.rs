//! What the launcher decides around `wsl.exe`: the self-check report, the
//! reading of `wsl --list --quiet`, the argument list of the agent's entry
//! process and the errors made from exit statuses.

use vstd::prelude::*;
use vstd::string::StringExecFns;
use vstd::utf8::{
    decode_utf8, encode_utf8, encode_utf8_decode_utf8, encode_utf8_valid_utf8, valid_utf8,
};
use crate::utf16::{char_units, lemma_utf16_roundtrip, utf16_decode, utf16_encode};
use crate::text::{
    decimal, lemma_lines_from_split, lemma_lines_one, lemma_trimmed_ends, lines, lines_from,
    owned_all, push_decimal, range_equals, signed_decimal, split_lines, str_chars, strip_cr, trim,
    trim_range, white_space,
};

verus! {

/// Whether this machine can run the portable distribution, and if not, why.
#[derive(Debug)]
pub struct SelfCheck {
    pub ok: bool,
    pub wsl_installed: bool,
    pub wsl_version_2_default: bool,
    pub windows_version_ok: bool,
    pub blocker: Option<String>,
}

/// How `wsl --status` ended.
pub enum WslStatus {
    /// It ran and exited with success.
    Succeeded,
    /// It ran and exited with failure.
    Failed,
    /// It could not be started at all.
    NotLaunched,
}

/// The first Windows build the distribution runs on: Windows 10 21H2.
pub open spec fn min_windows_build() -> u32 {
    19044
}

/// Whether the Windows build is recent enough; an unknown build is trusted,
/// since Windows itself refuses to start the launcher where it cannot run.
pub open spec fn windows_build_ok(build: Option<u32>) -> bool {
    build matches Some(b) ==> b >= min_windows_build()
}

/// Whether WSL 2 is the default; a WSL with no stored default uses version 2.
pub open spec fn default_is_wsl2(version: Option<u32>) -> bool {
    version matches Some(v) ==> v == 2
}

/// The self-check report: WSL is installed when `wsl --status` succeeds; the
/// check passes when, besides, the Windows build is 21H2 or later and WSL 2
/// is the default. The first thing that fails is the blocker:
/// `wsl_not_installed` when `wsl --status` fails, `wsl_missing` when it
/// cannot start, `windows_too_old` for an older build, `wsl_not_version_2`
/// when WSL 1 (or another version) is the default.
pub fn self_check_report(status: WslStatus, windows_build: Option<u32>, wsl_default_version: Option<u32>) -> (r: SelfCheck)
    ensures
        r.wsl_installed == (status is Succeeded),
        r.windows_version_ok == windows_build_ok(windows_build),
        r.wsl_version_2_default == (status is Succeeded && default_is_wsl2(wsl_default_version)),
        r.ok == (r.wsl_installed && r.windows_version_ok && r.wsl_version_2_default),
        r.ok <==> r.blocker is None,
        status is Failed ==> (r.blocker matches Some(b) && b@ == "wsl_not_installed"@),
        status is NotLaunched ==> (r.blocker matches Some(b) && b@ == "wsl_missing"@),
        status is Succeeded && !windows_build_ok(windows_build) ==> (r.blocker matches Some(b) && b@
            == "windows_too_old"@),
        status is Succeeded && windows_build_ok(windows_build) && !default_is_wsl2(
            wsl_default_version,
        ) ==> (r.blocker matches Some(b) && b@ == "wsl_not_version_2"@),
        windows_build matches Some(b) ==> (r.windows_version_ok <==> b >= 19044),
        status is Succeeded && (windows_build matches Some(b) ==> b >= 19044) && (
        wsl_default_version matches Some(v) ==> v == 2) ==> r.ok && r.blocker is None,
{
    let installed = match status {
        WslStatus::Succeeded => true,
        _ => false,
    };
    let windows_ok = match windows_build {
        Some(b) => b >= 19044,
        None => true,
    };
    let v2 = installed && match wsl_default_version {
        Some(v) => v == 2,
        None => true,
    };
    let blocker = match status {
        WslStatus::Failed => Some(String::from_str("wsl_not_installed")),
        WslStatus::NotLaunched => Some(String::from_str("wsl_missing")),
        WslStatus::Succeeded => if !windows_ok {
            Some(String::from_str("windows_too_old"))
        } else if !v2 {
            Some(String::from_str("wsl_not_version_2"))
        } else {
            None
        },
    };
    SelfCheck {
        ok: installed && windows_ok && v2,
        wsl_installed: installed,
        wsl_version_2_default: v2,
        windows_version_ok: windows_ok,
        blocker,
    }
}

/// What `String::from_utf8_lossy` makes of a sequence of bytes.
pub uninterp spec fn utf8_lossy(bytes: Seq<u8>) -> Seq<char>;

/// `String::from_utf16_lossy`: the UTF-16 decoding of the units, each
/// unpaired surrogate replaced by U+FFFD, which is what `utf16_decode` states
/// (the documentation of `char::decode_utf16` describes the same pairing).
#[verifier::external_body]
fn decode_utf16_lossy(units: &[u16]) -> (s: String)
    ensures
        s@ == utf16_decode(units@),
{
    String::from_utf16_lossy(units)
}

/// `String::from_utf8_lossy`, made owned. Its result is named by
/// `utf8_lossy`; on valid UTF-8 it is the decoded text, as the documentation
/// says. Which replacement characters invalid input gets is left unsaid.
#[verifier::external_body]
fn decode_utf8_lossy(bytes: &[u8]) -> (s: String)
    ensures
        s@ == utf8_lossy(bytes@),
        valid_utf8(bytes@) ==> s@ == decode_utf8(bytes@),
{
    String::from_utf8_lossy(bytes).into_owned()
}

/// The little-endian 16-bit units that the byte pairs of `b` encode.
pub open spec fn le_units(b: Seq<u8>) -> Seq<u16> {
    Seq::new(b.len() / 2, |i: int| (b[2 * i] + 256 * b[2 * i + 1]) as u16)
}

/// Whether `b` looks like UTF-16-LE text: an even, non-zero length and a zero
/// high byte in the first unit.
pub open spec fn looks_utf16_le(b: Seq<u8>) -> bool {
    b.len() >= 2 && b.len() % 2 == 0 && b[1] == 0
}

/// The text of `b`, read as UTF-16-LE when it looks so and as UTF-8
/// otherwise, invalid data being replaced in either case.
pub open spec fn decoded_text(b: Seq<u8>) -> Seq<char> {
    if looks_utf16_le(b) {
        utf16_decode(le_units(b))
    } else {
        utf8_lossy(b)
    }
}

/// Decodes the output of `wsl.exe`, which most Windows versions write in
/// UTF-16-LE, falling back to UTF-8.
pub fn decode_utf16_or_utf8(buf: &[u8]) -> (s: String)
    ensures
        s@ == decoded_text(buf@),
        !looks_utf16_le(buf@) && valid_utf8(buf@) ==> s@ == decode_utf8(buf@),
{
    if buf.len() >= 2 && buf.len() % 2 == 0 && buf[1] == 0 {
        let mut units: Vec<u16> = Vec::new();
        let n: usize = buf.len();
        let half = n / 2;
        let mut k: usize = 0;
        assert(half * 2 == buf@.len());
        while k < half
            invariant
                half == buf@.len() / 2,
                half * 2 == buf@.len(),
                n == buf@.len(),
                0 <= k <= half,
                units@ =~= le_units(buf@).take(k as int),
            decreases half - k,
        {
            let lo: u8 = buf[2 * k];
            let hi: u8 = buf[2 * k + 1];
            let u: u16 = (lo as u16) + (hi as u16) * 256;
            units.push(u);
            k = k + 1;
        }
        assert(units@ =~= le_units(buf@));
        decode_utf16_lossy(units.as_slice())
    } else {
        decode_utf8_lossy(buf)
    }
}

/// Every build of Windows 10 21H2 (build 19044) or later passes the
/// Windows check and every earlier one fails it; so on such a build, with
/// WSL installed and WSL 2 the default, the self-check passes with no
/// blocker.
pub proof fn lemma_windows_build_threshold(b: u32)
    ensures
        windows_build_ok(Some(b)) <==> b >= 19044,
        windows_build_ok(None),
        default_is_wsl2(Some(2)),
        default_is_wsl2(None),
        b != 2 ==> !default_is_wsl2(Some(b)),
{
}

/// Whether the build is recent enough only grows with the build.
pub proof fn lemma_windows_build_monotone(b1: u32, b2: u32)
    requires
        b1 <= b2,
        windows_build_ok(Some(b1)),
    ensures
        windows_build_ok(Some(b2)),
{
}

/// The little-endian bytes of the units `u`, as `u16::to_le_bytes` gives them.
pub open spec fn le_bytes(u: Seq<u16>) -> Seq<u8> {
    Seq::new(
        2 * u.len(),
        |i: int|
            if i % 2 == 0 {
                (u[i / 2] % 256) as u8
            } else {
                (u[i / 2] / 256) as u8
            },
    )
}

proof fn lemma_le_units_of_bytes(u: Seq<u16>)
    ensures
        le_units(le_bytes(u)) == u,
{
    let b = le_bytes(u);
    assert forall|i: int| 0 <= i < u.len() implies #[trigger] le_units(b)[i] == u[i] by {
        let x = u[i];
        assert(b[2 * i] == (x % 256) as u8);
        assert(b[2 * i + 1] == (x / 256) as u8);
        assert(x % 256 + 256 * (x / 256) == x) by (nonlinear_arith);
    }
    assert(le_units(b) =~= u);
}

/// Text written as UTF-16-LE whose first character is below U+0100 (so
/// that its second byte is zero) is read back as the same text.
pub proof fn lemma_decode_utf16_text(s: Seq<char>)
    requires
        s.len() > 0,
        (s[0] as u32) < 0x100,
    ensures
        looks_utf16_le(le_bytes(utf16_encode(s))),
        decoded_text(le_bytes(utf16_encode(s))) == s,
{
    let u = utf16_encode(s);
    assert(u =~= char_units(s[0]) + utf16_encode(s.drop_first()));
    assert(u[0] == (s[0] as u32) as u16);
    assert(le_bytes(u)[1] == (u[0] / 256) as u8);
    lemma_le_units_of_bytes(u);
    lemma_utf16_roundtrip(s);
}

/// Text written as UTF-8 is valid UTF-8 and decodes to itself, so it is read
/// back unchanged whenever it does not look like UTF-16-LE.
pub proof fn lemma_decode_utf8_text(s: Seq<char>)
    ensures
        valid_utf8(encode_utf8(s)),
        decode_utf8(encode_utf8(s)) == s,
{
    encode_utf8_valid_utf8(s);
    encode_utf8_decode_utf8(s);
}

/// Whether some line of `text`, trimmed, is exactly `name`.
pub open spec fn has_line(text: Seq<char>, name: Seq<char>) -> bool {
    exists|i: int| 0 <= i < lines(text).len() && trim(#[trigger] lines(text)[i]) == name
}

/// A listing has the name as soon as any one of its lines, trimmed, is the
/// name, wherever that line stands.
pub proof fn lemma_has_line_at(text: Seq<char>, name: Seq<char>, i: int)
    requires
        0 <= i < lines(text).len(),
        trim(lines(text)[i]) == name,
    ensures
        has_line(text, name),
{
}

/// A name without line breaks or surrounding white space, written as a line
/// after any text `a` that ends its own lines, is found in the listing.
pub proof fn lemma_has_line_appended(a: Seq<char>, name: Seq<char>)
    requires
        forall|i: int| 0 <= i < name.len() ==> #[trigger] name[i] != '\n',
        trim(name) == name,
    ensures
        has_line(a + seq!['\n'] + name + seq!['\n'], name),
{
    let text = a + seq!['\n'] + (name + seq!['\n']);
    assert(a + seq!['\n'] + name + seq!['\n'] =~= text);
    lemma_lines_from_split(a, name + seq!['\n'], Seq::empty());
    lemma_lines_one(name, Seq::empty());
    assert(Seq::<char>::empty() + name =~= name);
    if name.len() > 0 {
        lemma_trimmed_ends(name);
        assert(white_space('\r'));
    }
    assert(strip_cr(name) == name);
    let ls = lines(text);
    let k = lines_from(a + seq!['\n'], Seq::empty()).len();
    assert(ls == lines_from(a + seq!['\n'], Seq::empty()) + seq![name]);
    assert(ls[k as int] == name);
    lemma_has_line_at(text, name, k as int);
}

/// Whether the distribution `name` appears in a distribution listing: some
/// line of it, trimmed, equals the name.
pub fn distro_in_list(text: &str, name: &str) -> (b: bool)
    ensures
        b == has_line(text@, name@),
{
    let v = str_chars(text);
    let w = str_chars(name);
    let bounds = split_lines(&v);
    let ghost ls = lines(v@);
    for k in 0..bounds.len()
        invariant
            v@ == text@,
            w@ == name@,
            ls == lines(v@),
            bounds@.len() == ls.len(),
            forall|i: int|
                0 <= i < bounds@.len() ==> (#[trigger] bounds@[i]).0 <= bounds@[i].1 <= v@.len()
                    && v@.subrange(bounds@[i].0 as int, bounds@[i].1 as int) == ls[i],
            forall|i: int| 0 <= i < k ==> trim(#[trigger] ls[i]) != w@,
    {
        let (lo, hi) = bounds[k];
        let (a, b) = trim_range(&v, lo, hi);
        if range_equals(&v, a, b, &w) {
            assert(trim(ls[k as int]) == w@);
            return true;
        }
    }
    false
}

/// Whether `wsl --list --quiet` reports the distribution `name`: never when
/// the listing itself failed, else when its decoded output has a line that,
/// trimmed, is the name.
pub fn distro_listed(listing_succeeded: bool, stdout: &[u8], name: &str) -> (b: bool)
    ensures
        b == (listing_succeeded && has_line(decoded_text(stdout@), name@)),
{
    if !listing_succeeded {
        return false;
    }
    let text = decode_utf16_or_utf8(stdout);
    distro_in_list(text.as_str(), name)
}

/// The arguments of `wsl.exe` that start the agent's entry point inside the
/// distribution: as user `hermes`, in `/opt/hermes`, run with `--exec` (so no
/// Linux shell parses the command) through `env`, with the home, the portable
/// flag and the dashboard port set in the environment.
pub open spec fn entry_args(distro: Seq<char>, hermes_home: Seq<char>, port: u16, entry: Seq<char>)
    -> Seq<Seq<char>> {
    seq![
        "-d"@,
        distro,
        "--user"@,
        "hermes"@,
        "--cd"@,
        "/opt/hermes"@,
        "--exec"@,
        "env"@,
        "HERMES_HOME="@ + hermes_home,
        "HERMES_PORTABLE=1"@,
        "HERMES_DASHBOARD_PORT="@ + decimal(port as nat),
        entry,
    ]
}

/// The argument list for the entry process. With `--exec` no shell reads it:
/// each element is one argument, and the home path only ever stands inside
/// the `HERMES_HOME=` assignment.
pub fn spawn_entry_args(distro: &str, hermes_home: &str, port: u16, entry: &str) -> (r: Vec<String>)
    ensures
        r@.map_values(|a: String| a@) == entry_args(distro@, hermes_home@, port, entry@),
{
    let mut home = String::from_str("HERMES_HOME=");
    home.append(hermes_home);
    let mut port_arg = String::from_str("HERMES_DASHBOARD_PORT=");
    push_decimal(&mut port_arg, port as u64);
    let r = vec![
        String::from_str("-d"),
        distro.to_owned(),
        String::from_str("--user"),
        String::from_str("hermes"),
        String::from_str("--cd"),
        String::from_str("/opt/hermes"),
        String::from_str("--exec"),
        String::from_str("env"),
        home,
        String::from_str("HERMES_PORTABLE=1"),
        port_arg,
        entry.to_owned(),
    ];
    assert(r@.map_values(|a: String| a@) =~= entry_args(distro@, hermes_home@, port, entry@));
    r
}

/// The error text for a command that exited with failure: what was run,
/// then the exit code, or -1 when there is none.
pub open spec fn exit_failure_text(what: Seq<char>, code: Option<i32>) -> Seq<char> {
    let c: int = match code {
        Some(c) => c as int,
        None => -1,
    };
    what + " failed (exit "@ + signed_decimal(c) + ")"@
}

/// Turns the exit status of `what` into a result: `Ok` on success, else the
/// error `"<what> failed (exit <code>)"`.
pub fn check_exit(what: &str, success: bool, code: Option<i32>) -> (r: Result<(), String>)
    ensures
        success ==> r is Ok,
        !success ==> (r matches Err(e) && e@ == exit_failure_text(what@, code)),
{
    if success {
        return Ok(());
    }
    let c: i32 = match code {
        Some(c) => c,
        None => -1,
    };
    let mut e = what.to_owned();
    e.append(" failed (exit ");
    if c < 0 {
        e.append("-");
        let m: u64 = (0 - (c as i64)) as u64;
        push_decimal(&mut e, m);
    } else {
        push_decimal(&mut e, c as u64);
    }
    e.append(")");
    proof {
        reveal_strlit("-");
    }
    Err(e)
}

/// The `wsl.exe` arguments that ask whether WSL is installed and set up.
pub fn status_args() -> (r: Vec<String>)
    ensures
        r@.map_values(|a: String| a@) == seq!["--status"@],
{
    let items: Vec<&str> = vec!["--status"];
    let r = owned_all(&items);
    assert(items@.map_values(|a: &str| a@) =~= seq!["--status"@]);
    r
}

/// The `wsl.exe` arguments that list the registered distributions by name.
pub fn list_args() -> (r: Vec<String>)
    ensures
        r@.map_values(|a: String| a@) == seq!["--list"@, "--quiet"@],
{
    let items: Vec<&str> = vec!["--list", "--quiet"];
    let r = owned_all(&items);
    assert(items@.map_values(|a: &str| a@) =~= seq!["--list"@, "--quiet"@]);
    r
}

/// The `wsl.exe` arguments that import the tarball as the WSL 2 distribution
/// `name`, with its disk in `install_dir`.
pub fn import_args(name: &str, install_dir: &str, tarball: &str) -> (r: Vec<String>)
    ensures
        r@.map_values(|a: String| a@) == seq![
            "--import"@,
            name@,
            install_dir@,
            tarball@,
            "--version"@,
            "2"@,
        ],
{
    let items: Vec<&str> = vec!["--import", name, install_dir, tarball, "--version", "2"];
    let r = owned_all(&items);
    assert(items@.map_values(|a: &str| a@) =~= seq![
        "--import"@,
        name@,
        install_dir@,
        tarball@,
        "--version"@,
        "2"@,
    ]);
    r
}

/// The `wsl.exe` arguments that stop the distribution `name`.
pub fn terminate_args(name: &str) -> (r: Vec<String>)
    ensures
        r@.map_values(|a: String| a@) == seq!["--terminate"@, name@],
{
    let items: Vec<&str> = vec!["--terminate", name];
    let r = owned_all(&items);
    assert(items@.map_values(|a: &str| a@) =~= seq!["--terminate"@, name@]);
    r
}

/// The `wsl.exe` arguments that unregister the distribution `name`.
pub fn unregister_args(name: &str) -> (r: Vec<String>)
    ensures
        r@.map_values(|a: String| a@) == seq!["--unregister"@, name@],
{
    let items: Vec<&str> = vec!["--unregister", name];
    let r = owned_all(&items);
    assert(items@.map_values(|a: &str| a@) =~= seq!["--unregister"@, name@]);
    r
}

/// How an error names the `wsl.exe` command `verb` on the distribution
/// `name`, for example `wsl --import <name>`.
pub fn wsl_subject(verb: &str, name: &str) -> (t: String)
    ensures
        t@ == "wsl "@ + verb@ + " "@ + name@,
{
    let mut t = String::from_str("wsl ");
    t.append(verb);
    t.append(" ");
    t.append(name);
    t
}

/// The decompressor's arguments: decompress `rootfs`, overwriting `out`.
pub fn zstd_args(rootfs: &str, out: &str) -> (r: Vec<String>)
    ensures
        r@.map_values(|a: String| a@) == seq!["-d"@, "-f"@, rootfs@, "-o"@, out@],
{
    let items: Vec<&str> = vec!["-d", "-f", rootfs, "-o", out];
    let r = owned_all(&items);
    assert(items@.map_values(|a: &str| a@) =~= seq!["-d"@, "-f"@, rootfs@, "-o"@, out@]);
    r
}

/// The `cmd.exe` arguments that open `url` in the default browser.
pub fn browser_args(url: &str) -> (r: Vec<String>)
    ensures
        r@.map_values(|a: String| a@) == seq!["/C"@, "start"@, ""@, url@],
{
    let items: Vec<&str> = vec!["/C", "start", "", url];
    let r = owned_all(&items);
    assert(items@.map_values(|a: &str| a@) =~= seq!["/C"@, "start"@, ""@, url@]);
    r
}

} // verus!
