//! The USB stick the launcher runs from: finding its root, naming the WSL
//! distribution that belongs to it, and the WSL path of its data folder.

use vstd::prelude::*;
use vstd::string::StringExecFns;
use vstd::utf8::encode_utf8;
use sha2::Digest;
use crate::text::{ascii_lower, push_char, to_ascii_lower};
use crate::wsl::{entry_args, import_args, spawn_entry_args, zstd_args};

verus! {

/// Where the launcher runs from.
#[derive(Debug, Clone)]
pub struct Paths {
    /// The root of the USB stick, as text (for example `D:\`).
    pub usb_root: String,
}

/// What is found in one candidate folder while looking for the stick's root.
pub struct RootProbe {
    /// The marker file `runtime\HermesPortable.tar.zst` exists in it.
    pub marker_present: bool,
}

/// A folder is the stick's root when it holds the marker file, the bundled
/// root file system `runtime\HermesPortable.tar.zst`.
pub open spec fn marks_root(p: RootProbe) -> bool {
    p.marker_present
}

/// The root among the ancestors of the launcher, given what each of them
/// holds, nearest first: the first one that `marks_root`, if any.
pub fn find_usb_root(probes: &Vec<RootProbe>) -> (r: Option<usize>)
    ensures
        match r {
            Some(i) => i < probes@.len() && marks_root(probes@[i as int]) && forall|j: int|
                0 <= j < i ==> !marks_root(#[trigger] probes@[j]),
            None => forall|j: int| 0 <= j < probes@.len() ==> !marks_root(#[trigger] probes@[j]),
        },
{
    for i in 0..probes.len()
        invariant
            forall|j: int| 0 <= j < i ==> !marks_root(#[trigger] probes@[j]),
    {
        let p = &probes[i];
        if p.marker_present {
            return Some(i);
        }
    }
    None
}

/// The SHA-256 digest of `data`.
pub uninterp spec fn sha256(data: Seq<u8>) -> Seq<u8>;

/// `sha2::Sha256::digest`. Its result is named by `sha256` and has the
/// algorithm's 32 bytes; nothing more of its value is claimed.
#[verifier::external_body]
fn sha256_digest(data: &[u8]) -> (d: Vec<u8>)
    ensures
        d@ == sha256(data@),
        d@.len() == 32,
{
    sha2::Sha256::digest(data).to_vec()
}

/// The lower-case hexadecimal digit for `d`, which is below sixteen.
pub open spec fn hex_digit(d: nat) -> char {
    if d < 10 {
        (('0' as u32) + d) as char
    } else {
        (('a' as u32) + d - 10) as char
    }
}

/// Each byte of `b` as two lower-case hexadecimal digits, as `{:02x}` writes it.
pub open spec fn hex_lower(b: Seq<u8>) -> Seq<char>
    decreases b.len(),
{
    if b.len() == 0 {
        Seq::empty()
    } else {
        hex_lower(b.drop_last()) + seq![hex_digit((b.last() / 16) as nat), hex_digit((b.last() % 16) as nat)]
    }
}

/// Whether `c` is a lower-case hexadecimal digit.
pub open spec fn is_lower_hex(c: char) -> bool {
    ('0' <= c <= '9') || ('a' <= c <= 'f')
}

/// The hexadecimal form of `b` has two digits per byte, all lower-case
/// hexadecimal.
pub proof fn lemma_hex_lower_shape(b: Seq<u8>)
    ensures
        hex_lower(b).len() == 2 * b.len(),
        forall|i: int| 0 <= i < hex_lower(b).len() ==> is_lower_hex(#[trigger] hex_lower(b)[i]),
    decreases b.len(),
{
    if b.len() > 0 {
        lemma_hex_lower_shape(b.drop_last());
        let h = hex_lower(b.drop_last());
        let t = seq![hex_digit((b.last() / 16) as nat), hex_digit((b.last() % 16) as nat)];
        assert forall|i: int| 0 <= i < hex_lower(b).len() implies is_lower_hex(
            #[trigger] hex_lower(b)[i],
        ) by {
            if i < h.len() {
                assert(hex_lower(b)[i] == h[i]);
            } else {
                assert(hex_lower(b)[i] == t[i - h.len()]);
            }
        }
    }
}

/// The sixteen lower-case hexadecimal digits, in order.
pub open spec fn hex_alphabet() -> Seq<char> {
    seq!['0', '1', '2', '3', '4', '5', '6', '7', '8', '9', 'a', 'b', 'c', 'd', 'e', 'f']
}

/// Each digit value below sixteen is written with its standard lower-case
/// hexadecimal digit.
pub proof fn lemma_hex_digit_standard(d: nat)
    requires
        d < 16,
    ensures
        hex_digit(d) == hex_alphabet()[d as int],
{
    let a = hex_alphabet();
    if d == 0 { assert(a[0] == '0'); } else if d == 1 { assert(a[1] == '1'); }
    else if d == 2 { assert(a[2] == '2'); } else if d == 3 { assert(a[3] == '3'); }
    else if d == 4 { assert(a[4] == '4'); } else if d == 5 { assert(a[5] == '5'); }
    else if d == 6 { assert(a[6] == '6'); } else if d == 7 { assert(a[7] == '7'); }
    else if d == 8 { assert(a[8] == '8'); } else if d == 9 { assert(a[9] == '9'); }
    else if d == 10 { assert(a[10] == 'a'); } else if d == 11 { assert(a[11] == 'b'); }
    else if d == 12 { assert(a[12] == 'c'); } else if d == 13 { assert(a[13] == 'd'); }
    else if d == 14 { assert(a[14] == 'e'); } else { assert(a[15] == 'f'); }
}

/// The hexadecimal form of `b` writes each byte as its high digit then its
/// low digit, as `{:02x}` does.
pub proof fn lemma_hex_lower_digits(b: Seq<u8>)
    ensures
        hex_lower(b).len() == 2 * b.len(),
        forall|i: int|
            0 <= i < b.len() ==> hex_lower(b)[2 * i] == hex_alphabet()[(b[i] / 16) as int]
                && hex_lower(b)[2 * i + 1] == hex_alphabet()[(b[i] % 16) as int],
    decreases b.len(),
{
    if b.len() > 0 {
        let c = b.drop_last();
        lemma_hex_lower_digits(c);
        let x = b.last();
        lemma_hex_digit_standard((x / 16) as nat);
        lemma_hex_digit_standard((x % 16) as nat);
        assert forall|i: int|
            0 <= i < b.len() implies hex_lower(b)[2 * i] == hex_alphabet()[(b[i] / 16) as int]
            && hex_lower(b)[2 * i + 1] == hex_alphabet()[(b[i] % 16) as int] by {
            if i < c.len() {
                assert(b[i] == c[i]);
            }
        }
    }
}

fn hex_char(d: u8) -> (c: char)
    requires
        d < 16,
    ensures
        c == hex_digit(d as nat),
{
    if d < 10 {
        let u: u8 = 0x30 + d;
        u as char
    } else {
        let u: u8 = 0x61 + (d - 10);
        u as char
    }
}

/// The first four bytes of a digest in lower-case hexadecimal.
pub fn hash_prefix_hex(digest: &[u8]) -> (s: String)
    requires
        digest@.len() >= 4,
    ensures
        s@ == hex_lower(digest@.take(4)),
{
    let mut s = String::new();
    assert(digest@.take(0) =~= Seq::<u8>::empty());
    for i in 0..4
        invariant
            digest@.len() >= 4,
            s@ == hex_lower(digest@.take(i as int)),
    {
        let b = digest[i];
        push_char(&mut s, hex_char(b / 16));
        push_char(&mut s, hex_char(b % 16));
        assert(digest@.take(i + 1).drop_last() =~= digest@.take(i as int));
    }
    s
}

/// The short hash of a text: its UTF-8 bytes hashed with SHA-256, and the
/// first four bytes of the digest in lower-case hexadecimal.
pub open spec fn short_hash_of(s: Seq<char>) -> Seq<char> {
    hex_lower(sha256(encode_utf8(s)).take(4))
}

/// Eight hexadecimal digits that tell one text from another.
pub fn short_hash(s: &str) -> (h: String)
    ensures
        h@ == short_hash_of(s@),
        h@.len() == 8,
        forall|i: int| 0 <= i < 8 ==> is_lower_hex(#[trigger] h@[i]),
{
    let digest = sha256_digest(s.as_bytes());
    proof {
        lemma_hex_lower_shape(digest@.take(4));
    }
    hash_prefix_hex(digest.as_slice())
}

/// The name of the WSL distribution that belongs to the stick at `root`.
pub open spec fn distro_name_of(root: Seq<char>) -> Seq<char> {
    "HermesPortable_"@ + short_hash_of(root)
}

impl Paths {
    /// The per-stick distribution name: `HermesPortable_` and the short hash
    /// of the stick's root, so that two sticks in one machine do not share a
    /// distribution.
    pub fn distro_name(&self) -> (n: String)
        ensures
            n@ == distro_name_of(self.usb_root@),
            n@.len() == "HermesPortable_"@.len() + 8,
            n@.take("HermesPortable_"@.len() as int) == "HermesPortable_"@,
            forall|i: int|
                "HermesPortable_"@.len() <= i < n@.len() ==> is_lower_hex(#[trigger] n@[i]),
    {
        let mut n = String::from_str("HermesPortable_");
        let h = short_hash(self.usb_root.as_str());
        n.append(h.as_str());
        proof {
            let p = "HermesPortable_"@;
            assert(n@.take(p.len() as int) =~= p);
            assert forall|i: int| p.len() <= i < n@.len() implies is_lower_hex(#[trigger] n@[i]) by {
                assert(n@[i] == h@[i - p.len()]);
            }
        }
        n
    }
}

/// Two launches from sticks whose roots read the same get the same
/// distribution name: the name depends on the root's text alone.
pub proof fn lemma_distro_name_deterministic(p: Paths, q: Paths)
    requires
        p.usb_root@ == q.usb_root@,
    ensures
        distro_name_of(p.usb_root@) == distro_name_of(q.usb_root@),
{
}

/// The WSL path of the stick's data folder for a stick whose root starts
/// with `drive`: `/mnt/<drive, lower-cased>/data`.
pub open spec fn hermes_home_of(drive: char) -> Seq<char> {
    "/mnt/"@.push(ascii_lower(drive)) + "/data"@
}

/// The agent's home is `/mnt/`, the stick's drive letter in lower case (as
/// WSL mounts drives), then `/data`: an upper-case letter gives the same home
/// as its lower-case form, and the letter in the home is never upper-case.
pub proof fn lemma_hermes_home_lower_case(c: char)
    ensures
        hermes_home_of(c).len() == 11,
        hermes_home_of(c).take(5) == seq!['/', 'm', 'n', 't', '/'],
        hermes_home_of(c).skip(6) == seq!['/', 'd', 'a', 't', 'a'],
        !('A' <= hermes_home_of(c)[5] <= 'Z'),
        !('A' <= c <= 'Z') ==> hermes_home_of(c)[5] == c,
        'A' <= c <= 'Z' ==> hermes_home_of(c)[5] as u32 == c as u32 + 32,
        'A' <= c <= 'Z' ==> hermes_home_of(c) == hermes_home_of(((c as u32) + 32) as char),
{
    reveal_strlit("/mnt/");
    reveal_strlit("/data");
    let h = hermes_home_of(c);
    assert(h.take(5) =~= seq!['/', 'm', 'n', 't', '/']);
    assert(h.skip(6) =~= seq!['/', 'd', 'a', 't', 'a']);
    if 'A' <= c <= 'Z' {
        let l = ((c as u32) + 32) as char;
        assert(ascii_lower(l) == l);
    }
}

/// The program inside the distribution that starts the agent.
pub open spec fn portable_entry() -> Seq<char> {
    "/usr/local/bin/hermes-portable-entry"@
}

/// The `wsl.exe` arguments that boot the agent for this stick on `port`: the
/// entry point runs in `distro` with its home on the stick's data folder,
/// reached through WSL's automount of the stick's drive letter. Fails when
/// the root is empty, so that no drive letter can be read.
pub fn boot_hermes(paths: &Paths, distro: &str, port: u16) -> (r: Result<Vec<String>, String>)
    ensures
        paths.usb_root@.len() == 0 <==> r is Err,
        r matches Err(e) ==> e@ == "cannot determine USB drive letter"@,
        r matches Ok(args) ==> args@.map_values(|a: String| a@) == entry_args(
            distro@,
            hermes_home_of(paths.usb_root@[0]),
            port,
            portable_entry(),
        ),
{
    let root = paths.usb_root.as_str();
    if root.unicode_len() == 0 {
        return Err(String::from_str("cannot determine USB drive letter"));
    }
    let drive = to_ascii_lower(root.get_char(0));
    let mut home = String::from_str("/mnt/");
    push_char(&mut home, drive);
    home.append("/data");
    let entry = "/usr/local/bin/hermes-portable-entry";
    Ok(spawn_entry_args(distro, home.as_str(), port, entry))
}

/// The file name of the decompressed root file system for `distro`, kept in
/// the temporary folder until the import is done.
pub fn rootfs_tar_name(distro: &str) -> (n: String)
    ensures
        n@ == distro@ + "-rootfs.tar"@,
{
    let mut n = distro.to_owned();
    n.append("-rootfs.tar");
    n
}

/// Whether `c` separates the parts of a Windows path.
pub open spec fn is_path_sep(c: char) -> bool {
    c == '\\' || c == '/'
}

/// Whether `p` is a bare drive prefix such as `D:`.
pub open spec fn is_drive_prefix(p: Seq<char>) -> bool {
    p.len() == 2 && (('a' <= p[0] <= 'z') || ('A' <= p[0] <= 'Z')) && p[1] == ':'
}

/// `base` joined with the relative path `rel`, as `Path::join` does on
/// Windows: a separator goes between them unless `base` is empty, ends with
/// a separator, or is a bare drive prefix.
pub open spec fn path_join(base: Seq<char>, rel: Seq<char>) -> Seq<char> {
    if base.len() == 0 || is_path_sep(base.last()) || is_drive_prefix(base) {
        base + rel
    } else {
        base + seq!['\\'] + rel
    }
}

/// A joined path begins with its base: what is joined to the stick's root
/// lies on the stick.
pub proof fn lemma_join_within(base: Seq<char>, rel: Seq<char>)
    ensures
        path_join(base, rel).take(base.len() as int) == base,
        path_join(base, rel).len() >= base.len() + rel.len(),
{
    assert(path_join(base, rel).take(base.len() as int) =~= base);
}

/// Joins `rel` to `base` as `Path::join` does on Windows.
pub fn join_path(base: &str, rel: &str) -> (p: String)
    ensures
        p@ == path_join(base@, rel@),
{
    let mut p = base.to_owned();
    let n = base.unicode_len();
    if n > 0 {
        let last = base.get_char(n - 1);
        let drive = n == 2 && base.get_char(1) == ':' && {
            let c = base.get_char(0);
            ('a' <= c && c <= 'z') || ('A' <= c && c <= 'Z')
        };
        if !(last == '\\' || last == '/') && !drive {
            push_char(&mut p, '\\');
        }
        proof {
            assert(base@.last() == last);
        }
    }
    p.append(rel);
    p
}

/// Where the first-run import and the boot find their files: the
/// decompressor, the bundled root file system and the distribution's disk
/// folder on the stick, the decompressed tarball in the temporary folder,
/// and the dashboard's token file in the stick's data folder.
pub struct BootPlan {
    pub distro: String,
    pub zstd_exe: String,
    pub rootfs: String,
    pub temp_tar: String,
    pub zstd_args: Vec<String>,
    pub vhd_dir: String,
    pub import_args: Vec<String>,
    pub token_file: String,
}

/// The stick's distribution name, where its files are, and the commands of
/// the import, for the stick at `paths` and the temporary folder `temp_dir`.
pub fn boot_plan(paths: &Paths, temp_dir: &str) -> (plan: BootPlan)
    ensures
        plan.distro@ == distro_name_of(paths.usb_root@),
        plan.zstd_exe@ == path_join(paths.usb_root@, "launcher\\ext\\zstd.exe"@),
        plan.rootfs@ == path_join(paths.usb_root@, "runtime\\HermesPortable.tar.zst"@),
        plan.temp_tar@ == path_join(temp_dir@, plan.distro@ + "-rootfs.tar"@),
        plan.zstd_args@.map_values(|a: String| a@) == seq![
            "-d"@,
            "-f"@,
            plan.rootfs@,
            "-o"@,
            plan.temp_tar@,
        ],
        plan.vhd_dir@ == path_join(paths.usb_root@, "runtime\\wsl-vhd"@),
        plan.import_args@.map_values(|a: String| a@) == seq![
            "--import"@,
            plan.distro@,
            plan.vhd_dir@,
            plan.temp_tar@,
            "--version"@,
            "2"@,
        ],
        plan.token_file@ == path_join(paths.usb_root@, "data\\cache\\dashboard-token.txt"@),
        plan.vhd_dir@.take(paths.usb_root@.len() as int) == paths.usb_root@,
        plan.rootfs@.take(paths.usb_root@.len() as int) == paths.usb_root@,
        plan.zstd_exe@.take(paths.usb_root@.len() as int) == paths.usb_root@,
        plan.token_file@.take(paths.usb_root@.len() as int) == paths.usb_root@,
        plan.temp_tar@.take(temp_dir@.len() as int) == temp_dir@,
{
    let root = paths.usb_root.as_str();
    let distro = paths.distro_name();
    let zstd_exe = join_path(root, "launcher\\ext\\zstd.exe");
    let rootfs = join_path(root, "runtime\\HermesPortable.tar.zst");
    let tar_name = rootfs_tar_name(distro.as_str());
    let temp_tar = join_path(temp_dir, tar_name.as_str());
    let zargs = zstd_args(rootfs.as_str(), temp_tar.as_str());
    let vhd_dir = join_path(root, "runtime\\wsl-vhd");
    let iargs = import_args(distro.as_str(), vhd_dir.as_str(), temp_tar.as_str());
    let token_file = join_path(root, "data\\cache\\dashboard-token.txt");
    proof {
        lemma_join_within(root@, "runtime\\wsl-vhd"@);
        lemma_join_within(root@, "runtime\\HermesPortable.tar.zst"@);
        lemma_join_within(root@, "launcher\\ext\\zstd.exe"@);
        lemma_join_within(root@, "data\\cache\\dashboard-token.txt"@);
        lemma_join_within(temp_dir@, tar_name@);
    }
    BootPlan {
        distro,
        zstd_exe,
        rootfs,
        temp_tar,
        zstd_args: zargs,
        vhd_dir,
        import_args: iargs,
        token_file,
    }
}

/// The stick's log folder, `data\logs`.
pub fn logs_dir(paths: &Paths) -> (p: String)
    ensures
        p@ == path_join(path_join(paths.usb_root@, "data"@), "logs"@),
{
    let data = join_path(paths.usb_root.as_str(), "data");
    join_path(data.as_str(), "logs")
}

} // verus!
