//! Filesystem helpers: sparse-aware sizing, access ages, path expansion and
//! human-readable sizes.
//!
//! The single most important correctness rule of this whole app lives here:
//! reclaimable space is measured from *allocated blocks* (`st_blocks`), never
//! from the logical file length. A sparse `Docker.raw` reports a 1 TB length
//! but only occupies a few GB on disk; using `.len()` would be wildly wrong.
use vstd::prelude::*;
use crate::text::{dec, digit_char, push_decimal, push_char, chars_of, string_from, digit_to_char};
use crate::paths::{join_path, join, path_starts_with, starts_with_path};

verus! {

/// Bytes in `blocks` allocated 512-byte blocks, saturating at `u64::MAX`.
pub open spec fn real_size_spec(blocks: u64) -> u64 {
    if blocks * 512 <= u64::MAX {
        (blocks * 512) as u64
    } else {
        u64::MAX
    }
}

/// Real on-disk usage in bytes, derived from the number of allocated 512-byte
/// blocks (saturating at `u64::MAX`).
pub fn real_size(blocks: u64) -> (r: u64)
    ensures
        r == (if blocks * 512 <= u64::MAX {
            blocks * 512
        } else {
            u64::MAX as int
        }),
        r == real_size_spec(blocks),
{
    if blocks <= u64::MAX / 512 {
        blocks * 512
    } else {
        u64::MAX
    }
}

/// Whole days in `elapsed_secs` seconds, truncated to 32 bits the way
/// `(secs / 86_400) as u32` does; `None` (no timestamp, or a timestamp in the
/// future) counts as zero days.
pub fn days_since(elapsed_secs: Option<u64>) -> (r: u32)
    ensures
        r == (match elapsed_secs {
            Some(s) => ((s / 86_400) % 0x1_0000_0000) as u32,
            None => 0,
        }),
{
    match elapsed_secs {
        Some(s) => {
            let d = s / 86_400;
            assert(d <= 0xffff_ffff_ffff_ffff);
            let r = (d % 0x1_0000_0000) as u32;
            r
        },
        None => 0,
    }
}

/// Elapsed time from `then` to `now` (both in nanoseconds since the epoch),
/// saturating at zero for clock skew.
pub fn age(now: u128, then: u128) -> (r: u128)
    ensures
        r == (if now >= then {
            now - then
        } else {
            0
        }),
{
    now.saturating_sub(then)
}

// ---------------------------------------------------------------------------
// Home directory and `~` expansion
// ---------------------------------------------------------------------------

/// The home directory that `directories::BaseDirs` reports, as text. Which
/// directory it is depends on the environment and the user database and is not
/// stated; on Unix the crate reports one only when it is not empty (an empty
/// `HOME` or password-database entry counts as none).
#[verifier::external_body]
fn base_dirs_home() -> (r: Option<String>)
    ensures
        r matches Some(h) ==> h@.len() > 0,
{
    directories::BaseDirs::new().map(|b| b.home_dir().to_string_lossy().into_owned())
}

/// The current user's home directory (`/` when none can be determined).
/// Which directory that is comes from the environment; it is never empty.
pub fn home_dir() -> (r: String)
    ensures
        r@.len() > 0,
{
    match base_dirs_home() {
        Some(h) => h,
        None => {
            let v = vec!['/'];
            string_from(&v)
        },
    }
}

/// `~` expanded against `home`: `~` is the home itself, `~/rest` is the home
/// joined with `rest`, anything else is unchanged.
pub open spec fn expand_tilde_spec(input: Seq<char>, home: Seq<char>) -> Seq<char> {
    if input == seq!['~'] {
        home
    } else if input.len() >= 2 && input[0] == '~' && input[1] == '/' {
        join_path(home, input.skip(2))
    } else {
        input
    }
}

/// Expands a leading `~` (and `~/...`) against the given home directory.
pub fn expand_tilde_in(input: &str, home: &str) -> (r: String)
    ensures
        r@ == expand_tilde_spec(input@, home@),
{
    let v = chars_of(input);
    if v.len() == 1 && v[0] == '~' {
        assert(v@ =~= seq!['~']);
        return string_from(&chars_of(home));
    }
    assert(v@.len() == 1 && v@[0] == '~' ==> v@ =~= seq!['~']);
    if v.len() >= 2 && v[0] == '~' && v[1] == '/' {
        let mut rest: Vec<char> = Vec::new();
        let mut i: usize = 2;
        while i < v.len()
            invariant
                2 <= i <= v@.len(),
                rest@ == v@.subrange(2, i as int),
            decreases v@.len() - i,
        {
            rest.push(v[i]);
            assert(v@.subrange(2, i + 1) == v@.subrange(2, i as int).push(v@[i as int]));
            i = i + 1;
        }
        assert(rest@ == v@.skip(2));
        let rest_s = string_from(&rest);
        return join(home, rest_s.as_str());
    }
    string_from(&v)
}

/// Expands a leading `~` (and `~/...`) to the user's home directory.
pub fn expand_tilde(input: &str) -> (r: String)
    ensures
        exists|h: Seq<char>| r@ == expand_tilde_spec(input@, h),
{
    let home = home_dir();
    expand_tilde_in(input, home.as_str())
}

/// The user's Trash directory under a home directory.
pub open spec fn trash_dir_spec(home: Seq<char>) -> Seq<char> {
    join_path(home, seq!['.', 'T', 'r', 'a', 's', 'h'])
}

/// `~/.Trash` for the given home directory.
pub fn user_trash_dir_in(home: &str) -> (r: String)
    ensures
        r@ == trash_dir_spec(home@),
{
    let nv = vec!['.', 'T', 'r', 'a', 's', 'h'];
    assert(nv@ =~= seq!['.', 'T', 'r', 'a', 's', 'h']);
    let name = string_from(&nv);
    join(home, name.as_str())
}

/// The current user's Trash directory.
pub fn user_trash_dir() -> (r: String)
    ensures
        exists|h: Seq<char>| r@ == trash_dir_spec(h),
{
    let home = home_dir();
    user_trash_dir_in(home.as_str())
}

/// Whether `path` lies inside the Trash directory of `home`.
pub fn is_in_user_trash_in(path: &str, home: &str) -> (r: bool)
    ensures
        r == path_starts_with(path@, trash_dir_spec(home@)),
{
    let t = user_trash_dir_in(home);
    starts_with_path(&chars_of(path), &chars_of(t.as_str()))
}

/// Whether `path` lies inside the current user's Trash directory.
pub fn is_in_user_trash(path: &str) -> (r: bool)
    ensures
        exists|h: Seq<char>| r == path_starts_with(path@, trash_dir_spec(h)),
{
    let home = home_dir();
    is_in_user_trash_in(path, home.as_str())
}

// ---------------------------------------------------------------------------
// Human-readable sizes
// ---------------------------------------------------------------------------

pub open spec fn pow1024(u: nat) -> nat
    decreases u,
{
    if u == 0 {
        1
    } else {
        1024 * pow1024((u - 1) as nat)
    }
}

/// The unit a size is shown in: divide by 1024 while the value is at least
/// 1024, up to PB.
pub open spec fn size_unit(b: nat, u: nat) -> nat
    decreases 5 - u,
{
    if u < 5 && b >= pow1024(u + 1) {
        size_unit(b, u + 1)
    } else {
        u
    }
}

pub open spec fn unit_name(u: nat) -> Seq<char> {
    if u == 0 {
        seq!['B']
    } else if u == 1 {
        seq!['K', 'B']
    } else if u == 2 {
        seq!['M', 'B']
    } else if u == 3 {
        seq!['G', 'B']
    } else if u == 4 {
        seq!['T', 'B']
    } else {
        seq!['P', 'B']
    }
}

/// `n / d` rounded to the nearest integer, ties to even.
pub open spec fn round_half_even(n: nat, d: nat) -> nat
    recommends
        d > 0,
{
    let q = n / d;
    let r = n % d;
    if 2 * r > d {
        q + 1
    } else if 2 * r < d {
        q
    } else if q % 2 == 1 {
        q + 1
    } else {
        q
    }
}

/// The compact size text: `0 B`, `512 B`, `1.5 KB`, `120 GB`. A value below
/// 100 in its unit shows one decimal, otherwise none; both round to nearest,
/// ties to even.
pub open spec fn human_size_spec(b: nat) -> Seq<char> {
    let u = size_unit(b, 0);
    let d = pow1024(u);
    if b == 0 {
        seq!['0', ' ', 'B']
    } else if u == 0 {
        dec(b) + seq![' ', 'B']
    } else if b >= 100 * d {
        dec(round_half_even(b, d)) + seq![' '] + unit_name(u)
    } else {
        let t = round_half_even(10 * b, d);
        dec(t / 10) + seq!['.', digit_char(t % 10), ' '] + unit_name(u)
    }
}

pub proof fn lemma_pow1024_bounds(u: nat)
    requires
        u <= 5,
    ensures
        1 <= pow1024(u) <= 0x4_0000_0000_0000,
        u >= 1 ==> pow1024(u) % 2 == 0,
{
    reveal_with_fuel(pow1024, 6);
    if u == 0 {
    } else if u == 1 {
    } else if u == 2 {
    } else if u == 3 {
    } else if u == 4 {
    } else {
        assert(pow1024(5) == 0x4_0000_0000_0000);
    }
}

fn round_half_even_exec(n: u128, d: u128) -> (r: u128)
    requires
        d > 0,
        d <= 0x4_0000_0000_0000,
        n <= 0xffff_ffff_ffff_ffff_ffff,
    ensures
        r == round_half_even(n as nat, d as nat),
{
    let q = n / d;
    let r = n % d;
    if 2 * r > d {
        q + 1
    } else if 2 * r < d {
        q
    } else if q % 2 == 1 {
        q + 1
    } else {
        q
    }
}

fn push_unit(s: &mut String, u: u64)
    requires
        u <= 5,
    ensures
        final(s)@ == old(s)@ + unit_name(u as nat),
{
    if u == 1 {
        push_char(s, 'K');
    } else if u == 2 {
        push_char(s, 'M');
    } else if u == 3 {
        push_char(s, 'G');
    } else if u == 4 {
        push_char(s, 'T');
    } else if u == 5 {
        push_char(s, 'P');
    }
    push_char(s, 'B');
    proof {
        if u == 0 {
            assert(unit_name(0) == seq!['B']);
        }
    }
}

/// Formats a byte count as a compact human string, e.g. `1.3 GB`.
pub fn human_size(bytes: u64) -> (r: String)
    ensures
        r@ == human_size_spec(bytes as nat),
{
    let mut s = String::new();
    let ghost b = bytes as nat;
    if bytes == 0 {
        push_char(&mut s, '0');
        push_char(&mut s, ' ');
        push_char(&mut s, 'B');
        return s;
    }
    let mut unit: u64 = 0;
    let mut d: u64 = 1;
    while unit < 5 && bytes / d >= 1024
        invariant
            unit <= 5,
            d == pow1024(unit as nat),
            d >= 1,
            b == bytes,
            size_unit(b, 0) == size_unit(b, unit as nat),
            b >= d,
        decreases 5 - unit,
    {
        proof {
            lemma_pow1024_bounds(unit as nat);
            lemma_pow1024_bounds((unit + 1) as nat);
            assert(bytes as nat >= 1024 * d) by (nonlinear_arith)
                requires
                    bytes / d >= 1024,
                    d > 0,
            ;
            assert(pow1024((unit + 1) as nat) == 1024 * pow1024(unit as nat));
            assert(size_unit(b, unit as nat) == size_unit(b, (unit + 1) as nat));
        }
        d = d * 1024;
        unit = unit + 1;
    }
    proof {
        lemma_pow1024_bounds(unit as nat);
        if unit < 5 {
            lemma_pow1024_bounds((unit + 1) as nat);
            assert(bytes < 1024 * d) by (nonlinear_arith)
                requires
                    bytes / d < 1024,
                    d > 0,
            ;
        }
        assert(size_unit(b, unit as nat) == unit);
    }
    if unit == 0 {
        push_decimal(&mut s, bytes);
        push_char(&mut s, ' ');
        push_char(&mut s, 'B');
        return s;
    }
    let big = (bytes as u128) >= 100 * (d as u128);
    if big {
        let q = round_half_even_exec(bytes as u128, d as u128);
        assert(q <= bytes) by (nonlinear_arith)
            requires
                q == round_half_even(bytes as nat, d as nat),
                d >= 2,
                d % 2 == 0,
        ;
        push_decimal(&mut s, q as u64);
        push_char(&mut s, ' ');
        push_unit(&mut s, unit);
    } else {
        let t = round_half_even_exec(10 * (bytes as u128), d as u128);
        assert(t <= 1000) by (nonlinear_arith)
            requires
                t == round_half_even(10 * bytes as nat, d as nat),
                (bytes as nat) < 100 * d,
                d >= 2,
        ;
        push_decimal(&mut s, (t / 10) as u64);
        push_char(&mut s, '.');
        push_char(&mut s, digit_to_char((t % 10) as u64));
        push_char(&mut s, ' ');
        push_unit(&mut s, unit);
    }
    s
}

} // verus!
