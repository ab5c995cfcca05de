//! Helpers used across the launcher: human-readable file sizes, version
//! strings, file-name and path text rules, game names.
use vstd::prelude::*;
use vstd::arithmetic::div_mod::lemma_div_denominator;
use crate::text::{
    chars_of, contains_seq, decimal, decimal_padded, parse_unsigned, parse_unsigned_text, push_char, push_decimal,
    push_decimal_padded, push_str, split_chars, split_on, starts_with, str_starts_with,
    string_from_chars,
};
use std::cmp::Ordering;

verus! {

// ---------------------------------------------------------------------------
// Human-readable file sizes
// ---------------------------------------------------------------------------

/// `2^k`.
pub open spec fn pow2n(k: nat) -> nat
    decreases k,
{
    if k == 0 {
        1
    } else {
        2 * pow2n((k - 1) as nat)
    }
}

/// `1024^k`.
pub open spec fn pow1024(k: nat) -> nat
    decreases k,
{
    if k == 0 {
        1
    } else {
        1024 * pow1024((k - 1) as nat)
    }
}

/// How many low bits of `n` a 53-bit significand cannot hold.
pub open spec fn f64_shift(n: nat) -> nat
    decreases n,
{
    if n < 0x20_0000_0000_0000 {
        0
    } else {
        1 + f64_shift(n / 2)
    }
}

/// `n as f64` for an integer `n`: `n` rounded to 53 significant bits, to
/// nearest, ties to even.
pub open spec fn f64_round(n: nat) -> nat {
    let ulp = pow2n(f64_shift(n));
    let q = n / ulp;
    let r = n % ulp;
    if 2 * r > ulp || (2 * r == ulp && q % 2 == 1) {
        (q + 1) * ulp
    } else {
        q * ulp
    }
}

/// The unit the size display picks: the largest of B, KB, MB, GB, TB that
/// the (rounded) size reaches.
pub open spec fn size_unit_index(x: nat) -> nat {
    if x >= pow1024(4) {
        4
    } else if x >= pow1024(3) {
        3
    } else if x >= pow1024(2) {
        2
    } else if x >= pow1024(1) {
        1
    } else {
        0
    }
}

pub open spec fn size_unit_name(k: nat) -> Seq<char> {
    if k == 0 {
        "B"@
    } else if k == 1 {
        "KB"@
    } else if k == 2 {
        "MB"@
    } else if k == 3 {
        "GB"@
    } else {
        "TB"@
    }
}

/// `x / d` in hundredths, rounded to nearest with ties to even, as `{:.2}`
/// rounds the exact value.
pub open spec fn hundredths(x: nat, d: nat) -> nat {
    let t = (x * 100) / d;
    let rem = (x * 100) % d;
    if 2 * rem > d || (2 * rem == d && t % 2 == 1) {
        t + 1
    } else {
        t
    }
}

/// A count of hundredths written with two decimals.
pub open spec fn two_decimals(h: nat) -> Seq<char> {
    decimal(h / 100) + "."@ + decimal_padded(h % 100, 2)
}

/// The text `format_file_size` gives for `size` bytes.
pub open spec fn file_size_text(size: nat) -> Seq<char> {
    let x = f64_round(size);
    let k = size_unit_index(x);
    if k == 0 {
        decimal(size) + " "@ + "B"@
    } else {
        two_decimals(hundredths(x, pow1024(k))) + " "@ + size_unit_name(k)
    }
}

proof fn lemma_pow2n_positive(k: nat)
    ensures
        pow2n(k) >= 1,
    decreases k,
{
    if k > 0 {
        lemma_pow2n_positive((k - 1) as nat);
    }
}

proof fn lemma_pow1024_values()
    ensures
        pow1024(1) == 1024,
        pow1024(2) == 1048576,
        pow1024(3) == 1073741824,
        pow1024(4) == 1099511627776,
{
    reveal_with_fuel(pow1024, 5);
}

/// `size as f64`, returned as the exact integer it holds.
fn round_to_f64_integer(n: u64) -> (r: u128)
    ensures
        r as nat == f64_round(n as nat),
        r <= 0x2_0000_0000_0000_0000,
        n < 0x20_0000_0000_0000 ==> r == n,
        n >= 0x20_0000_0000_0000 ==> r >= 0x20_0000_0000_0000,
{
    let big: u64 = 0x20_0000_0000_0000;  // 2^53
    let mut m: u64 = n;
    let mut ulp: u128 = 1;
    let ghost mut k: nat = 0;
    while m >= big
        invariant
            big == 0x20_0000_0000_0000,
            ulp as nat == pow2n(k),
            1 <= ulp <= 0x1000,
            m as nat == (n as nat) / (ulp as nat),
            f64_shift(n as nat) == k + f64_shift(m as nat),
            m as nat * ulp as nat <= n as nat,
            ulp >= 2 ==> m >= 0x10_0000_0000_0000,
        decreases m,
    {
        proof {
            lemma_div_denominator(n as int, ulp as int, 2);
        }
        assert(ulp <= 2047) by (nonlinear_arith)
            requires
                m as nat * ulp as nat <= n as nat,
                m >= 0x20_0000_0000_0000,
                n <= 0xffff_ffff_ffff_ffff,
        {
        }
        m = m / 2;
        ulp = ulp * 2;
        proof {
            k = k + 1;
        }
        assert(m as nat * ulp as nat <= n as nat) by (nonlinear_arith)
            requires
                m as nat == (n as nat) / (ulp as nat),
                ulp > 0,
        {
        }
    }
    let q: u128 = m as u128;
    let rem: u128 = (n as u128) - q * ulp;
    assert(rem as nat == (n as nat) % (ulp as nat)) by {
        vstd::arithmetic::div_mod::lemma_fundamental_div_mod(n as int, ulp as int);
        assert((ulp as int) * ((n as int) / (ulp as int)) == (q as int) * (ulp as int))
            by (nonlinear_arith)
            requires
                q as int == (n as int) / (ulp as int),
        ;
    }
    assert((q + 1) * ulp <= 0x2_0000_0000_0000_0000) by (nonlinear_arith)
        requires
            q < 0x20_0000_0000_0000,
            ulp <= 0x1000,
    {
    }
    let r: u128 = if 2 * rem > ulp || (2 * rem == ulp && q % 2 == 1) {
        (q + 1) * ulp
    } else {
        q * ulp
    };
    if n < big {
        assert(ulp == 1);
        assert(rem == 0);
    } else {
        assert(ulp >= 2);
        assert(q * ulp >= 0x20_0000_0000_0000) by (nonlinear_arith)
            requires
                q >= 0x10_0000_0000_0000,
                ulp >= 2,
        {
        }
        assert(r >= q * ulp) by (nonlinear_arith)
            requires
                r == (q + 1) * ulp || r == q * ulp,
        {
        }
    }
    r
}

fn unit_name(k: u64) -> (s: &'static str)
    requires
        k <= 4,
    ensures
        s@ == size_unit_name(k as nat),
{
    if k == 0 {
        "B"
    } else if k == 1 {
        "KB"
    } else if k == 2 {
        "MB"
    } else if k == 3 {
        "GB"
    } else {
        "TB"
    }
}

/// Format file size in human-readable format: whole bytes below 1 KB,
/// otherwise the value in the largest unit up to TB with two decimals.
pub fn format_file_size(size: u64) -> (r: String)
    ensures
        r@ == file_size_text(size as nat),
{
    let x: u128 = round_to_f64_integer(size);
    proof {
        lemma_pow1024_values();
    }
    let k: u64 = if x >= 1099511627776 {
        4
    } else if x >= 1073741824 {
        3
    } else if x >= 1048576 {
        2
    } else if x >= 1024 {
        1
    } else {
        0
    };
    assert(k as nat == size_unit_index(x as nat));
    let mut r = String::new();
    if k == 0 {
        assert(x == size as u128);
        push_decimal(&mut r, size);
        push_str(&mut r, " ");
        push_str(&mut r, "B");
        assert(r@ =~= file_size_text(size as nat));
        return r;
    }
    let d: u128 = if k == 4 {
        1099511627776
    } else if k == 3 {
        1073741824
    } else if k == 2 {
        1048576
    } else {
        1024
    };
    assert(d as nat == pow1024(k as nat));
    let n: u128 = x * 100;
    let t: u128 = n / d;
    let rem: u128 = n % d;
    let h: u128 = if 2 * rem > d || (2 * rem == d && t % 2 == 1) {
        t + 1
    } else {
        t
    };
    assert(h as nat == hundredths(x as nat, d as nat));
    assert(t * d <= n) by (nonlinear_arith)
        requires
            t == n / d,
            d > 0,
    {
    }
    assert(t <= 0x10_0000_0000_0000_0000) by (nonlinear_arith)
        requires
            t * d <= n,
            d >= 1024,
            n == x * 100,
            x <= 0x2_0000_0000_0000_0000,
    {
    }
    let whole: u64 = (h / 100) as u64;
    let frac: u64 = (h % 100) as u64;
    push_decimal(&mut r, whole);
    push_str(&mut r, ".");
    push_decimal_padded(&mut r, frac, 2);
    push_str(&mut r, " ");
    push_str(&mut r, unit_name(k));
    assert(r@ =~= file_size_text(size as nat));
    r
}

// ---------------------------------------------------------------------------
// Version strings
// ---------------------------------------------------------------------------

/// One `x`, `y` or `z` of a version string, parsed as `u32`.
pub open spec fn version_component(part: Seq<char>) -> Option<u32> {
    match parse_unsigned(part, 0xffff_ffff) {
        Some(v) => Some(v as u32),
        None => None,
    }
}

/// What `parse_version` gives for `version`: three `.`-separated `u32`
/// components, or the message naming the first thing that is wrong.
pub open spec fn version_result(version: Seq<char>) -> Result<(u32, u32, u32), Seq<char>> {
    let parts = split_on(version, '.');
    if parts.len() != 3 {
        Err("Invalid version format: "@ + version + ". Expected format: x.y.z"@)
    } else if version_component(parts[0]) is None {
        Err("Invalid major version: "@ + parts[0])
    } else if version_component(parts[1]) is None {
        Err("Invalid minor version: "@ + parts[1])
    } else if version_component(parts[2]) is None {
        Err("Invalid patch version: "@ + parts[2])
    } else {
        Ok(
            (
                version_component(parts[0])->0,
                version_component(parts[1])->0,
                version_component(parts[2])->0,
            ),
        )
    }
}

/// `r` holds exactly what `expected` describes.
pub open spec fn result_matches<T>(r: Result<T, String>, expected: Result<T, Seq<char>>) -> bool {
    match expected {
        Ok(v) => r == Ok::<T, String>(v),
        Err(e) => r matches Err(s) && s@ == e,
    }
}

fn error_with(prefix: &str, detail: &Vec<char>) -> (r: String)
    ensures
        r@ == prefix@ + detail@,
{
    let mut r = String::new();
    push_str(&mut r, prefix);
    let d = string_from_chars(detail);
    push_str(&mut r, d.as_str());
    r
}

fn parse_component(part: &Vec<char>) -> (r: Option<u32>)
    ensures
        r == version_component(part@),
{
    match parse_unsigned_text(part, 0xffff_ffff) {
        Some(v) => Some(v as u32),
        None => None,
    }
}

/// Parse version string into components
pub fn parse_version(version: &str) -> (r: Result<(u32, u32, u32), String>)
    ensures
        result_matches(r, version_result(version@)),
{
    let cs = chars_of(version);
    let parts = split_chars(&cs, '.');
    if parts.len() != 3 {
        let mut e = String::new();
        push_str(&mut e, "Invalid version format: ");
        push_str(&mut e, version);
        push_str(&mut e, ". Expected format: x.y.z");
        return Err(e);
    }
    assert(parts@[0]@ == split_on(version@, '.')[0]);
    assert(parts@[1]@ == split_on(version@, '.')[1]);
    assert(parts@[2]@ == split_on(version@, '.')[2]);
    let major = match parse_component(&parts[0]) {
        Some(v) => v,
        None => {
            return Err(error_with("Invalid major version: ", &parts[0]));
        },
    };
    let minor = match parse_component(&parts[1]) {
        Some(v) => v,
        None => {
            return Err(error_with("Invalid minor version: ", &parts[1]));
        },
    };
    let patch = match parse_component(&parts[2]) {
        Some(v) => v,
        None => {
            return Err(error_with("Invalid patch version: ", &parts[2]));
        },
    };
    Ok((major, minor, patch))
}

/// Lexicographic order of version triples.
pub open spec fn triple_order(a: (u32, u32, u32), b: (u32, u32, u32)) -> Ordering {
    if a.0 < b.0 {
        Ordering::Less
    } else if a.0 > b.0 {
        Ordering::Greater
    } else if a.1 < b.1 {
        Ordering::Less
    } else if a.1 > b.1 {
        Ordering::Greater
    } else if a.2 < b.2 {
        Ordering::Less
    } else if a.2 > b.2 {
        Ordering::Greater
    } else {
        Ordering::Equal
    }
}

/// What `compare_versions` gives: the first parse error, or the order of
/// the two triples.
pub open spec fn version_comparison(v1: Seq<char>, v2: Seq<char>) -> Result<Ordering, Seq<char>> {
    match version_result(v1) {
        Err(e) => Err(e),
        Ok(a) => match version_result(v2) {
            Err(e) => Err(e),
            Ok(b) => Ok(triple_order(a, b)),
        },
    }
}

/// Compare two version strings
pub fn compare_versions(version1: &str, version2: &str) -> (r: Result<Ordering, String>)
    ensures
        result_matches(r, version_comparison(version1@, version2@)),
{
    let a = match parse_version(version1) {
        Ok(t) => t,
        Err(e) => {
            return Err(e);
        },
    };
    let b = match parse_version(version2) {
        Ok(t) => t,
        Err(e) => {
            return Err(e);
        },
    };
    let ord = if a.0 < b.0 {
        Ordering::Less
    } else if a.0 > b.0 {
        Ordering::Greater
    } else if a.1 < b.1 {
        Ordering::Less
    } else if a.1 > b.1 {
        Ordering::Greater
    } else if a.2 < b.2 {
        Ordering::Less
    } else if a.2 > b.2 {
        Ordering::Greater
    } else {
        Ordering::Equal
    };
    Ok(ord)
}

/// The order read the other way round.
pub open spec fn flipped(o: Ordering) -> Ordering {
    match o {
        Ordering::Less => Ordering::Greater,
        Ordering::Greater => Ordering::Less,
        Ordering::Equal => Ordering::Equal,
    }
}

/// Comparing a valid version with itself gives `Equal`.
pub proof fn lemma_compare_versions_reflexive(v: Seq<char>)
    requires
        version_result(v) is Ok,
    ensures
        version_comparison(v, v) == Ok::<Ordering, Seq<char>>(Ordering::Equal),
{
}

/// Swapping the versions flips the order; a comparison fails exactly
/// when one of the versions does not parse, the first one's error first.
pub proof fn lemma_compare_versions_antisymmetric(v1: Seq<char>, v2: Seq<char>)
    ensures
        version_comparison(v1, v2) is Err <==> (version_result(v1) is Err || version_result(
            v2,
        ) is Err),
        version_comparison(v1, v2) matches Ok(o) ==> version_comparison(v2, v1) == Ok::<
            Ordering,
            Seq<char>,
        >(flipped(o)),
{
}

/// The order of versions is transitive.
pub proof fn lemma_compare_versions_transitive(v1: Seq<char>, v2: Seq<char>, v3: Seq<char>)
    requires
        version_comparison(v1, v2) == Ok::<Ordering, Seq<char>>(Ordering::Less),
        version_comparison(v2, v3) == Ok::<Ordering, Seq<char>>(Ordering::Less),
    ensures
        version_comparison(v1, v3) == Ok::<Ordering, Seq<char>>(Ordering::Less),
{
}

/// Equal versions compare alike with every other version.
pub proof fn lemma_compare_versions_equal_substitutes(v1: Seq<char>, v2: Seq<char>, v3: Seq<char>)
    requires
        version_comparison(v1, v2) == Ok::<Ordering, Seq<char>>(Ordering::Equal),
        version_result(v3) is Ok,
    ensures
        version_comparison(v1, v3) == version_comparison(v2, v3),
{
}

/// `x.y.z` written in decimal parses back to `(x, y, z)`.
pub proof fn lemma_parse_version_roundtrip(x: u32, y: u32, z: u32)
    ensures
        version_result(
            decimal(x as nat) + seq!['.'] + decimal(y as nat) + seq!['.'] + decimal(z as nat),
        ) == Ok::<(u32, u32, u32), Seq<char>>((x, y, z)),
{
    let dx = decimal(x as nat);
    let dy = decimal(y as nat);
    let dz = decimal(z as nat);
    crate::text::lemma_decimal_no_char(x as nat, '.');
    crate::text::lemma_decimal_no_char(y as nat, '.');
    crate::text::lemma_decimal_no_char(z as nat, '.');
    crate::text::lemma_split_without_sep(dx, '.');
    crate::text::lemma_split_append(dx, dy, '.');
    crate::text::lemma_split_append(dx + seq!['.'] + dy, dz, '.');
    let parts = split_on(dx + seq!['.'] + dy + seq!['.'] + dz, '.');
    assert(parts =~= seq![dx, dy, dz]);
    crate::text::lemma_parse_decimal(x as nat, 0xffff_ffff);
    crate::text::lemma_parse_decimal(y as nat, 0xffff_ffff);
    crate::text::lemma_parse_decimal(z as nat, 0xffff_ffff);
}

/// `x.y.z` in decimal.
pub open spec fn version_text(x: u32, y: u32, z: u32) -> Seq<char> {
    decimal(x as nat) + seq!['.'] + decimal(y as nat) + seq!['.'] + decimal(z as nat)
}

/// Versions are ordered by their numbers, major first, then minor, then
/// patch: the first is `Less` exactly when its major number is smaller, or
/// the majors agree and its minor number is smaller, or both agree and its
/// patch number is smaller; `Equal` exactly when all three agree.
pub proof fn lemma_compare_versions_by_numbers(
    v1: Seq<char>,
    v2: Seq<char>,
    a: (u32, u32, u32),
    b: (u32, u32, u32),
)
    requires
        version_result(v1) == Ok::<(u32, u32, u32), Seq<char>>(a),
        version_result(v2) == Ok::<(u32, u32, u32), Seq<char>>(b),
    ensures
        (version_comparison(v1, v2) == Ok::<Ordering, Seq<char>>(Ordering::Less)) <==> (a.0 < b.0
            || (a.0 == b.0 && a.1 < b.1) || (a.0 == b.0 && a.1 == b.1 && a.2 < b.2)),
        (version_comparison(v1, v2) == Ok::<Ordering, Seq<char>>(Ordering::Equal)) <==> (a.0 == b.0
            && a.1 == b.1 && a.2 == b.2),
        (version_comparison(v1, v2) == Ok::<Ordering, Seq<char>>(Ordering::Greater)) <==> (b.0
            < a.0 || (a.0 == b.0 && b.1 < a.1) || (a.0 == b.0 && a.1 == b.1 && b.2 < a.2)),
{
}

/// A later patch, minor or major number makes a later version:
/// `x.y.z < x.y.(z+1)`, `x.y.z < x.(y+1).w` and `x.y.z < (x+1).v.w` for all
/// numbers (`x1`, `y1`, `z1` stand for the next numbers).
pub proof fn lemma_compare_versions_bumps(
    x: u32,
    y: u32,
    z: u32,
    x1: u32,
    y1: u32,
    z1: u32,
    v: u32,
    w: u32,
)
    ensures
        z1 == z + 1 ==> version_comparison(version_text(x, y, z), version_text(x, y, z1)) == Ok::<
            Ordering,
            Seq<char>,
        >(Ordering::Less),
        y1 == y + 1 ==> version_comparison(version_text(x, y, z), version_text(x, y1, w)) == Ok::<
            Ordering,
            Seq<char>,
        >(Ordering::Less),
        x1 == x + 1 ==> version_comparison(version_text(x, y, z), version_text(x1, v, w)) == Ok::<
            Ordering,
            Seq<char>,
        >(Ordering::Less),
{
    lemma_parse_version_roundtrip(x, y, z);
    lemma_parse_version_roundtrip(x, y, z1);
    lemma_parse_version_roundtrip(x, y1, w);
    lemma_parse_version_roundtrip(x1, v, w);
    lemma_compare_versions_by_numbers(version_text(x, y, z), version_text(x, y, z1), (x, y, z), (x, y, z1));
    lemma_compare_versions_by_numbers(version_text(x, y, z), version_text(x, y1, w), (x, y, z), (x, y1, w));
    lemma_compare_versions_by_numbers(version_text(x, y, z), version_text(x1, v, w), (x, y, z), (x1, v, w));
}

// ---------------------------------------------------------------------------
// File names, paths and URLs
// ---------------------------------------------------------------------------

/// `char::is_control`: the Unicode `Cc` characters.
pub open spec fn is_control_char(c: char) -> bool {
    c <= '\u{1f}' || ('\u{7f}' <= c && c <= '\u{9f}')
}

/// The replacement `sanitize_filename` makes for one character.
pub open spec fn sanitized_char(c: char) -> char {
    if c == '<' || c == '>' || c == ':' || c == '"' || c == '|' || c == '?' || c == '*' || c == '/'
        || c == '\\' || is_control_char(c) {
        '_'
    } else {
        c
    }
}

/// `s` with each reserved or control character replaced by `_`.
pub open spec fn sanitized(s: Seq<char>) -> Seq<char> {
    s.map_values(|c: char| sanitized_char(c))
}

/// Sanitize filename for safe file operations: every reserved or control
/// character becomes `_`.
pub fn sanitize_filename(filename: &str) -> (r: String)
    ensures
        r@ == sanitized(filename@),
{
    let cs = chars_of(filename);
    let mut r = String::new();
    let mut i: usize = 0;
    while i < cs.len()
        invariant
            cs@ == filename@,
            i <= cs.len(),
            r@ == sanitized(filename@.subrange(0, i as int)),
        decreases cs.len() - i,
    {
        let c = cs[i];
        let out = if c == '<' || c == '>' || c == ':' || c == '"' || c == '|' || c == '?' || c
            == '*' || c == '/' || c == '\\' || c <= '\u{1f}' || ('\u{7f}' <= c && c <= '\u{9f}') {
            '_'
        } else {
            c
        };
        push_char(&mut r, out);
        assert(sanitized(filename@.subrange(0, i + 1)) =~= sanitized(
            filename@.subrange(0, i as int),
        ).push(out));
        i = i + 1;
    }
    assert(filename@.subrange(0, cs.len() as int) =~= filename@);
    r
}

/// A sanitized name holds no reserved or control character, keeps its
/// length, and sanitizing it again changes nothing.
pub proof fn lemma_sanitized_safe(s: Seq<char>)
    ensures
        sanitized(s).len() == s.len(),
        forall|i: int|
            0 <= i < s.len() ==> sanitized_char(#[trigger] sanitized(s)[i]) == sanitized(s)[i],
        forall|i: int|
            0 <= i < s.len() ==> !is_control_char(#[trigger] sanitized(s)[i]) && sanitized(s)[i]
                != '/' && sanitized(s)[i] != '\\' && sanitized(s)[i] != ':' && sanitized(s)[i]
                != '*' && sanitized(s)[i] != '?' && sanitized(s)[i] != '"' && sanitized(s)[i]
                != '<' && sanitized(s)[i] != '>' && sanitized(s)[i] != '|',
        sanitized(sanitized(s)) == sanitized(s),
{
    assert(sanitized(sanitized(s)) =~= sanitized(s));
}

/// `s` with each backslash turned into `/`.
pub open spec fn forward_slashed(s: Seq<char>) -> Seq<char> {
    s.map_values(|c: char| if c == '\\' { '/' } else { c })
}

/// A normalized path holds no backslash, keeps its length, and
/// normalizing it again changes nothing.
pub proof fn lemma_forward_slashed_normal(s: Seq<char>)
    ensures
        forward_slashed(s).len() == s.len(),
        forall|i: int| 0 <= i < s.len() ==> #[trigger] forward_slashed(s)[i] != '\\',
        forward_slashed(forward_slashed(s)) == forward_slashed(s),
{
    assert(forward_slashed(forward_slashed(s)) =~= forward_slashed(s));
}

/// Convert Windows path separators to forward slashes
pub fn normalize_path_separators(path: &str) -> (r: String)
    ensures
        r@ == forward_slashed(path@),
{
    let cs = chars_of(path);
    let mut r = String::new();
    let mut i: usize = 0;
    while i < cs.len()
        invariant
            cs@ == path@,
            i <= cs.len(),
            r@ == forward_slashed(path@.subrange(0, i as int)),
        decreases cs.len() - i,
    {
        let c = cs[i];
        let out = if c == '\\' {
            '/'
        } else {
            c
        };
        push_char(&mut r, out);
        assert(forward_slashed(path@.subrange(0, i + 1)) =~= forward_slashed(
            path@.subrange(0, i as int),
        ).push(out));
        i = i + 1;
    }
    assert(path@.subrange(0, cs.len() as int) =~= path@);
    r
}

/// Check if a string is a valid URL (an `http://` or `https://` prefix).
pub fn is_valid_url(url: &str) -> (r: bool)
    ensures
        r == (starts_with(url@, "http://"@) || starts_with(url@, "https://"@)),
{
    str_starts_with(url, "http://") || str_starts_with(url, "https://")
}

/// The lowercase form that `str::to_lowercase` gives, a function of the
/// characters alone (Unicode case tables).
pub uninterp spec fn unicode_lowercase(s: Seq<char>) -> Seq<char>;

/// `str::to_lowercase`. Its result is named; for ASCII text the
/// documentation fixes it to the ASCII lowercase mapping.
#[verifier::external_body]
pub(crate) fn to_lowercase(s: &str) -> (r: String)
    ensures
        r@ == unicode_lowercase(s@),
        all_ascii(s@) ==> r@ == ascii_lowercase(s@),
{
    s.to_lowercase()
}

/// The uppercase form that `str::to_uppercase` gives, a function of the
/// characters alone (Unicode case tables).
pub uninterp spec fn unicode_uppercase(s: Seq<char>) -> Seq<char>;

/// `str::to_uppercase`. Its result is named; for ASCII text the
/// documentation fixes it to the ASCII uppercase mapping.
#[verifier::external_body]
pub(crate) fn to_uppercase(s: &str) -> (r: String)
    ensures
        r@ == unicode_uppercase(s@),
        (forall|i: int| 0 <= i < s@.len() ==> (s@[i] as u32) < 128) ==> r@ == s@.map_values(
            |c: char| if 'a' <= c && c <= 'z' { ((c as u32) - 32) as char } else { c },
        ),
{
    s.to_uppercase()
}

/// The position of the last `c` in `s`, or -1 when there is none.
pub open spec fn last_index_of(s: Seq<char>, c: char) -> int
    decreases s.len(),
{
    if s.len() == 0 {
        -1
    } else if s.last() == c {
        s.len() - 1
    } else {
        last_index_of(s.drop_last(), c)
    }
}

/// The part of a path after its last `/`.
pub open spec fn final_piece(s: Seq<char>) -> Seq<char> {
    s.subrange(last_index_of(s, '/') + 1, s.len() as int)
}

/// A path whose components every platform splits alike: it holds no
/// backslash and does not open with `//` (a network prefix on Windows),
/// and the part after its last `/` is a file name: nonempty, without `:`,
/// and neither `.` nor `..`. Its file name is that last part.
pub open spec fn plain_path(s: Seq<char>) -> bool {
    let f = final_piece(s);
    &&& forall|i: int| 0 <= i < s.len() ==> s[i] != '\\'
    &&& !(s.len() >= 2 && s[0] == '/' && s[1] == '/')
    &&& f.len() > 0
    &&& forall|i: int| 0 <= i < f.len() ==> f[i] != ':'
    &&& f != seq!['.']
    &&& f != seq!['.', '.']
}

/// `last_index_of` is -1 or the position of a `c` after which none follows.
pub proof fn lemma_last_index_of(s: Seq<char>, c: char)
    ensures
        -1 <= last_index_of(s, c) < s.len(),
        last_index_of(s, c) >= 0 ==> s[last_index_of(s, c)] == c,
        forall|j: int| last_index_of(s, c) < j < s.len() ==> s[j] != c,
    decreases s.len(),
{
    if s.len() > 0 && s.last() != c {
        lemma_last_index_of(s.drop_last(), c);
        assert forall|j: int| last_index_of(s, c) < j < s.len() implies s[j] != c by {
            if j < s.len() - 1 {
                assert(s[j] == s.drop_last()[j]);
            }
        }
    }
}

/// The extension of the file name `name`: what follows its last `.`, when
/// that `.` is not its first character.
pub open spec fn name_extension(name: Seq<char>) -> Option<Seq<char>> {
    let k = last_index_of(name, '.');
    if k > 0 {
        Some(name.subrange(k + 1, name.len() as int))
    } else {
        None
    }
}

/// The file name `name` without its extension and the `.` before it.
pub open spec fn name_stem(name: Seq<char>) -> Seq<char> {
    let k = last_index_of(name, '.');
    if k > 0 {
        name.subrange(0, k)
    } else {
        name
    }
}

/// `s` holds ASCII characters only.
pub open spec fn all_ascii(s: Seq<char>) -> bool {
    forall|i: int| 0 <= i < s.len() ==> (s[i] as u32) < 128
}

/// `s` with `A` to `Z` made lowercase and every other character kept.
pub open spec fn ascii_lowercase(s: Seq<char>) -> Seq<char> {
    s.map_values(|c: char| if 'A' <= c && c <= 'Z' { ((c as u32) + 32) as char } else { c })
}

/// `Path::extension`: the part of the final file name after its last `.`,
/// if that file name has a `.` past its first character. Which characters
/// separate components depends on the platform; for a `plain_path` every
/// platform takes the part after the last `/` as the file name, and the
/// extension is given exactly. Of other paths only the facts that hold
/// everywhere are stated: the extension has no `.` in it and occurs in the
/// path right after a `.`, it holds no `/` (a separator everywhere), and a
/// path without any `.` has no extension.
#[verifier::external_body]
pub(crate) fn path_extension(path: &str) -> (r: Option<String>)
    ensures
        r matches Some(e) ==> (forall|i: int| 0 <= i < e@.len() ==> e@[i] != '.' && e@[i] != '/')
            && contains_seq(path@, seq!['.'] + e@),
        (forall|i: int| 0 <= i < path@.len() ==> path@[i] != '.') ==> r is None,
        plain_path(path@) ==> match r {
            Some(e) => name_extension(final_piece(path@)) == Some(e@),
            None => name_extension(final_piece(path@)) is None,
        },
{
    std::path::Path::new(path).extension().and_then(|e| e.to_str()).map(|e| e.to_string())
}

/// `Path::file_name`: the final component of the path, unless the path
/// ends in `..` or has no component. Which characters separate components
/// depends on the platform; for a `plain_path` the name is the part after
/// the last `/`. Of other paths only what holds on every platform is
/// stated: a name is nonempty, has no `/`, and occurs in the path.
#[verifier::external_body]
pub(crate) fn path_file_name(path: &str) -> (r: Option<String>)
    ensures
        r matches Some(n) ==> n@.len() > 0 && contains_seq(path@, n@) && forall|i: int|
            0 <= i < n@.len() ==> n@[i] != '/',
        plain_path(path@) ==> r is Some && r.unwrap()@ == final_piece(path@),
{
    std::path::Path::new(path).file_name().and_then(|n| n.to_str()).map(|n| n.to_string())
}

/// Get file extension without the dot, in lowercase.
pub fn get_file_extension(file_path: &str) -> (r: Option<String>)
    ensures
        r matches Some(e) ==> exists|x: Seq<char>|
            #![trigger unicode_lowercase(x)]
            e@ == unicode_lowercase(x) && (forall|i: int| 0 <= i < x.len() ==> x[i] != '.')
                && contains_seq(file_path@, seq!['.'] + x),
        (forall|i: int| 0 <= i < file_path@.len() ==> file_path@[i] != '.') ==> r is None,
        plain_path(file_path@) ==> match name_extension(final_piece(file_path@)) {
            Some(x) => r matches Some(e) && e@ == unicode_lowercase(x) && (all_ascii(x) ==> e@
                == ascii_lowercase(x)),
            None => r is None,
        },
{
    match path_extension(file_path) {
        Some(ext) => {
            let lower = to_lowercase(ext.as_str());
            assert(lower@ == unicode_lowercase(ext@));
            Some(lower)
        },
        None => None,
    }
}

} // verus!
