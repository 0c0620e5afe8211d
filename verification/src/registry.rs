//! Reading numbers out of what `reg query` prints, for the system facts the
//! self-check needs: the Windows build and WSL's default version.
//!
//! `reg query <key> /v <name>` prints the key, then a line
//! `    <name>    <type>    <data>`; the data of a `REG_SZ` number is
//! decimal, that of a `REG_DWORD` is `0x` and hexadecimal digits.

use vstd::prelude::*;
use vstd::string::StringExecFns;
use crate::text::{
    is_white_space, lines, range_starts_with, split_lines, str_chars, trim, trim_range, white_space,
};

verus! {

/// The index of the last white-space character of `t`, or -1 when it has none.
pub open spec fn last_ws(t: Seq<char>) -> int
    decreases t.len(),
{
    if t.len() == 0 {
        -1
    } else if white_space(t.last()) {
        t.len() - 1
    } else {
        last_ws(t.drop_last())
    }
}

/// The data of a `reg query` line for the value `name`: the line, trimmed,
/// starts with the name followed by white space, and the data is its last
/// white-space-separated word.
pub open spec fn reg_line_value(line: Seq<char>, name: Seq<char>) -> Option<Seq<char>> {
    let t = trim(line);
    if t.len() > name.len() && t.take(name.len() as int) == name && white_space(t[name.len() as int]) {
        Some(t.skip(last_ws(t) + 1))
    } else {
        None
    }
}

/// The data of the first line in `ls` that is a line for `name`.
pub open spec fn first_reg_value(ls: Seq<Seq<char>>, name: Seq<char>) -> Option<Seq<char>>
    decreases ls.len(),
{
    if ls.len() == 0 {
        None
    } else {
        match reg_line_value(ls[0], name) {
            Some(v) => Some(v),
            None => first_reg_value(ls.drop_first(), name),
        }
    }
}

/// Whether `c` is a digit in base 16 (`hex`) or base 10.
pub open spec fn is_digit_in(c: char, hex: bool) -> bool {
    ('0' <= c <= '9') || (hex && (('a' <= c <= 'f') || ('A' <= c <= 'F')))
}

/// The value of the digit `c`.
pub open spec fn digit_value(c: char) -> nat {
    if '0' <= c <= '9' {
        (c as u32 - '0' as u32) as nat
    } else if 'a' <= c <= 'f' {
        (c as u32 - 'a' as u32 + 10) as nat
    } else {
        (c as u32 - 'A' as u32 + 10) as nat
    }
}

/// The number that the digits `s` write in base 16 (`hex`) or base 10.
pub open spec fn digits_value(s: Seq<char>, hex: bool) -> nat
    decreases s.len(),
{
    if s.len() == 0 {
        0
    } else {
        digits_value(s.drop_last(), hex) * (if hex { 16nat } else { 10nat }) + digit_value(s.last())
    }
}

/// Whether `s` is one or more digits in the base.
pub open spec fn all_digits(s: Seq<char>, hex: bool) -> bool {
    s.len() > 0 && forall|i: int| 0 <= i < s.len() ==> is_digit_in(#[trigger] s[i], hex)
}

/// The number that registry data writes: `0x` and hexadecimal digits, or
/// decimal digits; `None` for anything else.
pub open spec fn reg_number(v: Seq<char>) -> Option<nat> {
    if v.len() > 2 && v[0] == '0' && (v[1] == 'x' || v[1] == 'X') {
        if all_digits(v.skip(2), true) {
            Some(digits_value(v.skip(2), true))
        } else {
            None
        }
    } else if all_digits(v, false) {
        Some(digits_value(v, false))
    } else {
        None
    }
}

/// The number that `reg query` output `text` gives for the value `name`.
pub open spec fn registry_number(text: Seq<char>, name: Seq<char>) -> Option<nat> {
    match first_reg_value(lines(text), name) {
        Some(v) => reg_number(v),
        None => None,
    }
}

proof fn lemma_last_ws(t: Seq<char>, k: int)
    requires
        0 <= k <= t.len(),
        forall|i: int| k <= i < t.len() ==> !white_space(#[trigger] t[i]),
        k == 0 || white_space(t[k - 1]),
    ensures
        last_ws(t) == k - 1,
    decreases t.len() - k,
{
    if k < t.len() {
        let u = t.drop_last();
        assert forall|i: int| k <= i < u.len() implies !white_space(#[trigger] u[i]) by {
            assert(u[i] == t[i]);
        }
        lemma_last_ws(u, k);
    } else if k > 0 {
        assert(t.last() == t[k - 1]);
    }
}

/// The data of the `reg query` line `v[lo..hi]` for `name`, as bounds in `v`.
fn line_value(v: &Vec<char>, lo: usize, hi: usize, name: &Vec<char>) -> (r: Option<(usize, usize)>)
    requires
        lo <= hi <= v@.len(),
    ensures
        match reg_line_value(v@.subrange(lo as int, hi as int), name@) {
            Some(d) => r matches Some((a, b)) && a <= b <= v@.len() && v@.subrange(a as int, b as int) == d,
            None => r is None,
        },
{
    let ghost line = v@.subrange(lo as int, hi as int);
    let (a, b) = trim_range(v, lo, hi);
    let ghost t = v@.subrange(a as int, b as int);
    let n = name.len();
    if b - a <= n {
        return None;
    }
    if !range_starts_with(v, a, b, name) {
        return None;
    }
    if !is_white_space(v[a + n]) {
        assert(t[n as int] == v@[a + n]);
        return None;
    }
    assert(t[n as int] == v@[a + n]);
    let mut k = b;
    while k > a && !is_white_space(v[k - 1])
        invariant
            a <= k <= b <= v@.len(),
            forall|i: int| k <= i < b ==> !white_space(#[trigger] v@[i]),
        decreases k - a,
    {
        k = k - 1;
    }
    proof {
        assert forall|i: int| k - a <= i < t.len() implies !white_space(#[trigger] t[i]) by {
            assert(t[i] == v@[a + i]);
        }
        if k > a {
            assert(t[k - a - 1] == v@[k - 1]);
        }
        lemma_last_ws(t, k - a);
        assert(t.skip(k - a) =~= v@.subrange(k as int, b as int));
    }
    Some((k, b))
}

fn digit_of(c: char) -> (d: u64)
    requires
        is_digit_in(c, true),
    ensures
        d == digit_value(c),
        d < 16,
{
    let u = c as u32;
    if '0' <= c && c <= '9' {
        (u - 0x30) as u64
    } else if 'a' <= c && c <= 'f' {
        (u - 0x61 + 10) as u64
    } else {
        (u - 0x41 + 10) as u64
    }
}

fn is_digit(c: char, hex: bool) -> (b: bool)
    ensures
        b == is_digit_in(c, hex),
{
    ('0' <= c && c <= '9') || (hex && (('a' <= c && c <= 'f') || ('A' <= c && c <= 'F')))
}

/// The number that the digits `v[lo..hi]` write, when they are all digits
/// and it fits in a `u32`.
fn digits_number(v: &Vec<char>, lo: usize, hi: usize, hex: bool) -> (r: Option<u32>)
    requires
        lo <= hi <= v@.len(),
    ensures
        match r {
            Some(n) => all_digits(v@.subrange(lo as int, hi as int), hex) && digits_value(
                v@.subrange(lo as int, hi as int),
                hex,
            ) == n,
            None => !all_digits(v@.subrange(lo as int, hi as int), hex) || digits_value(
                v@.subrange(lo as int, hi as int),
                hex,
            ) > u32::MAX,
        },
{
    let ghost s = v@.subrange(lo as int, hi as int);
    if lo == hi {
        return None;
    }
    let mut acc: u64 = 0;
    let mut over = false;
    let mut i = lo;
    assert(v@.subrange(lo as int, lo as int) =~= Seq::<char>::empty());
    while i < hi
        invariant
            lo <= i <= hi <= v@.len(),
            s == v@.subrange(lo as int, hi as int),
            forall|j: int| lo <= j < i ==> is_digit_in(#[trigger] v@[j], hex),
            !over ==> acc == digits_value(v@.subrange(lo as int, i as int), hex) && acc <= u32::MAX,
            over ==> digits_value(v@.subrange(lo as int, i as int), hex) > u32::MAX,
        decreases hi - i,
    {
        let c = v[i];
        if !is_digit(c, hex) {
            assert(s[i - lo] == c);
            return None;
        }
        let ghost prev = v@.subrange(lo as int, i as int);
        let ghost next = v@.subrange(lo as int, i + 1);
        assert(next.drop_last() =~= prev);
        assert(next.last() == c);
        let d = digit_of(c);
        if !over {
            let m: u64 = if hex { acc * 16 } else { acc * 10 };
            let t: u64 = m + d;
            if t > 0xffff_ffff {
                over = true;
            } else {
                acc = t;
            }
        }
        i = i + 1;
    }
    assert(v@.subrange(lo as int, hi as int) =~= s);
    if over {
        None
    } else {
        Some(acc as u32)
    }
}

/// The number that registry data `v[lo..hi]` writes, if it fits in a `u32`.
fn data_number(v: &Vec<char>, lo: usize, hi: usize) -> (r: Option<u32>)
    requires
        lo <= hi <= v@.len(),
    ensures
        match r {
            Some(n) => reg_number(v@.subrange(lo as int, hi as int)) == Some(n as nat),
            None => match reg_number(v@.subrange(lo as int, hi as int)) {
                Some(m) => m > u32::MAX,
                None => true,
            },
        },
{
    let ghost s = v@.subrange(lo as int, hi as int);
    if hi - lo > 2 && v[lo] == '0' && (v[lo + 1] == 'x' || v[lo + 1] == 'X') {
        assert(s[0] == v@[lo as int] && s[1] == v@[lo + 1]);
        assert(s.skip(2) =~= v@.subrange(lo + 2, hi as int));
        digits_number(v, lo + 2, hi, true)
    } else {
        proof {
            if hi - lo > 2 {
                assert(s[0] == v@[lo as int] && s[1] == v@[lo + 1]);
            }
        }
        digits_number(v, lo, hi, false)
    }
}

/// The number that `reg query` printed for the value `name`: the data of the
/// first line for it, read as decimal or as `0x` hexadecimal; `None` when no
/// line is for it, its data is no number, or the number exceeds `u32`.
pub fn registry_value(output: &str, name: &str) -> (r: Option<u32>)
    ensures
        match r {
            Some(n) => registry_number(output@, name@) == Some(n as nat),
            None => match registry_number(output@, name@) {
                Some(m) => m > u32::MAX,
                None => true,
            },
        },
{
    let v = str_chars(output);
    let w = str_chars(name);
    let bounds = split_lines(&v);
    let ghost ls = lines(v@);
    assert(ls.skip(0) =~= ls);
    for k in 0..bounds.len()
        invariant
            v@ == output@,
            w@ == name@,
            ls == lines(v@),
            bounds@.len() == ls.len(),
            forall|i: int|
                0 <= i < bounds@.len() ==> (#[trigger] bounds@[i]).0 <= bounds@[i].1 <= v@.len()
                    && v@.subrange(bounds@[i].0 as int, bounds@[i].1 as int) == ls[i],
            first_reg_value(ls, w@) == first_reg_value(ls.skip(k as int), w@),
    {
        let (lo, hi) = bounds[k];
        proof {
            let rest = ls.skip(k as int);
            assert(rest[0] == ls[k as int]);
            assert(rest.drop_first() =~= ls.skip(k + 1));
        }
        match line_value(&v, lo, hi, &w) {
            Some((a, b)) => {
                return data_number(&v, a, b);
            },
            None => {},
        }
    }
    assert(ls.skip(bounds@.len() as int) =~= Seq::<Seq<char>>::empty());
    None
}

/// The `reg.exe` arguments that print the Windows build number.
pub fn windows_build_query_args() -> (r: Vec<String>)
    ensures
        r@.map_values(|a: String| a@) == seq![
            "query"@,
            "HKLM\\SOFTWARE\\Microsoft\\Windows NT\\CurrentVersion"@,
            "/v"@,
            "CurrentBuildNumber"@,
        ],
{
    let r = vec![
        String::from_str("query"),
        String::from_str("HKLM\\SOFTWARE\\Microsoft\\Windows NT\\CurrentVersion"),
        String::from_str("/v"),
        String::from_str("CurrentBuildNumber"),
    ];
    assert(r@.map_values(|a: String| a@) =~= seq![
        "query"@,
        "HKLM\\SOFTWARE\\Microsoft\\Windows NT\\CurrentVersion"@,
        "/v"@,
        "CurrentBuildNumber"@,
    ]);
    r
}

/// The `reg.exe` arguments that print WSL's default version for the user.
pub fn wsl_default_version_query_args() -> (r: Vec<String>)
    ensures
        r@.map_values(|a: String| a@) == seq![
            "query"@,
            "HKCU\\Software\\Microsoft\\Windows\\CurrentVersion\\Lxss"@,
            "/v"@,
            "DefaultVersion"@,
        ],
{
    let r = vec![
        String::from_str("query"),
        String::from_str("HKCU\\Software\\Microsoft\\Windows\\CurrentVersion\\Lxss"),
        String::from_str("/v"),
        String::from_str("DefaultVersion"),
    ];
    assert(r@.map_values(|a: String| a@) =~= seq![
        "query"@,
        "HKCU\\Software\\Microsoft\\Windows\\CurrentVersion\\Lxss"@,
        "/v"@,
        "DefaultVersion"@,
    ]);
    r
}

} // verus!
