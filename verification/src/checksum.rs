//! Checksum manifest extraction.
//!
//! An upstream checksum manifest is a line-oriented listing of
//! `hash  filename` pairs. A checksum is looked up by matching a label
//! substring against each line in manifest order: the result is the first
//! whitespace-delimited token of the first line whose text contains the
//! label.

use vstd::prelude::*;
use vstd::string::StrSliceExecFns;
use crate::Error;

verus! {

/// Whitespace: what separates tokens.
pub open spec fn is_ws(c: char) -> bool {
    c == ' ' || c == '\t' || c == '\r' || c == '\n'
}

/// The first position at or after `i` holding a newline, or the length when
/// none follows.
pub open spec fn spec_find_nl(s: Seq<char>, i: int) -> int
    decreases s.len() - i
        when 0 <= i <= s.len()
{
    if i >= s.len() {
        s.len() as int
    } else if s[i] == '\n' {
        i
    } else {
        spec_find_nl(s, i + 1)
    }
}

pub proof fn lemma_find_nl(s: Seq<char>, i: int)
    requires
        0 <= i <= s.len(),
    ensures
        i <= spec_find_nl(s, i) <= s.len(),
        spec_find_nl(s, i) < s.len() ==> s[spec_find_nl(s, i)] == '\n',
        forall|k: int| i <= k < spec_find_nl(s, i) ==> s[k] != '\n',
    decreases s.len() - i,
{
    if i < s.len() && s[i] != '\n' {
        lemma_find_nl(s, i + 1);
    }
}

/// The first position at or after `i` holding a non-separator character.
pub open spec fn spec_find_non_ws(s: Seq<char>, i: int) -> int
    decreases s.len() - i
        when 0 <= i <= s.len()
{
    if i >= s.len() {
        s.len() as int
    } else if !is_ws(s[i]) {
        i
    } else {
        spec_find_non_ws(s, i + 1)
    }
}

pub proof fn lemma_find_non_ws(s: Seq<char>, i: int)
    requires
        0 <= i <= s.len(),
    ensures
        i <= spec_find_non_ws(s, i) <= s.len(),
        spec_find_non_ws(s, i) < s.len() ==> !is_ws(s[spec_find_non_ws(s, i)]),
        forall|k: int| i <= k < spec_find_non_ws(s, i) ==> is_ws(s[k]),
    decreases s.len() - i,
{
    if i < s.len() && is_ws(s[i]) {
        lemma_find_non_ws(s, i + 1);
    }
}

/// The first position at or after `i` holding a separator character.
pub open spec fn spec_find_ws(s: Seq<char>, i: int) -> int
    decreases s.len() - i
        when 0 <= i <= s.len()
{
    if i >= s.len() {
        s.len() as int
    } else if is_ws(s[i]) {
        i
    } else {
        spec_find_ws(s, i + 1)
    }
}

pub proof fn lemma_find_ws(s: Seq<char>, i: int)
    requires
        0 <= i <= s.len(),
    ensures
        i <= spec_find_ws(s, i) <= s.len(),
        spec_find_ws(s, i) < s.len() ==> is_ws(s[spec_find_ws(s, i)]),
        forall|k: int| i <= k < spec_find_ws(s, i) ==> !is_ws(s[k]),
    decreases s.len() - i,
{
    if i < s.len() && !is_ws(s[i]) {
        lemma_find_ws(s, i + 1);
    }
}

/// The last position at or before `i` holding a non-separator character,
/// or -1 when all of `s` up to `i` is whitespace.
pub open spec fn spec_rfind_non_ws(s: Seq<char>, i: int) -> int
    decreases i + 1
        when -1 <= i < s.len()
{
    if i < 0 {
        -1
    } else if !is_ws(s[i]) {
        i
    } else {
        spec_rfind_non_ws(s, i - 1)
    }
}

/// The last position at or before `i` holding a separator character, or -1
/// when none does.
pub open spec fn spec_rfind_ws(s: Seq<char>, i: int) -> int
    decreases i + 1
        when -1 <= i < s.len()
{
    if i < 0 {
        -1
    } else if is_ws(s[i]) {
        i
    } else {
        spec_rfind_ws(s, i - 1)
    }
}

/// The last whitespace-delimited token of a string, when it has one.
pub open spec fn spec_last_token(s: Seq<char>) -> Option<Seq<char>> {
    let b = spec_rfind_non_ws(s, s.len() - 1);
    if b < 0 {
        None
    } else {
        Some(s.subrange(spec_rfind_ws(s, b) + 1, b + 1))
    }
}

/// The last whitespace-delimited token of a string, when it has one.
pub fn last_token(s: &str) -> (r: Option<String>)
    ensures
        match spec_last_token(s@) {
            Some(t) => r matches Some(x) && x@ == t,
            None => r is None,
        },
{
    let n = s.unicode_len();
    let mut j: usize = n;
    loop
        invariant
            j <= n,
            n == s@.len(),
            spec_rfind_non_ws(s@, n as int - 1) == spec_rfind_non_ws(s@, j as int - 1),
        ensures
            1 <= j <= n,
            spec_rfind_non_ws(s@, n as int - 1) == j as int - 1,
        decreases j,
    {
        if j == 0 {
            return None;
        }
        let c = s.get_char(j - 1);
        if !(c == ' ' || c == '\t' || c == '\r' || c == '\n') {
            break;
        }
        j = j - 1;
    }
    let b = j - 1;
    let mut t: usize = b;
    loop
        invariant
            t <= b < n,
            n == s@.len(),
            spec_rfind_non_ws(s@, n as int - 1) == b as int,
            spec_rfind_ws(s@, b as int) == spec_rfind_ws(s@, t as int),
        decreases t,
    {
        let c = s.get_char(t);
        if c == ' ' || c == '\t' || c == '\r' || c == '\n' {
            proof {
                assert(spec_rfind_ws(s@, t as int) == t as int);
            }
            return Some(s.substring_char(t + 1, b + 1).to_owned());
        }
        if t == 0 {
            proof {
                assert(spec_rfind_ws(s@, -1) == -1);
                assert(spec_rfind_ws(s@, 0) == -1);
            }
            return Some(s.substring_char(0, b + 1).to_owned());
        }
        t = t - 1;
    }
}

/// Whether `sub` occurs in `s` starting exactly at position `i`.
pub open spec fn has_sub_at(s: Seq<char>, sub: Seq<char>, i: int) -> bool {
    0 <= i && i + sub.len() <= s.len() && s.subrange(i, i + sub.len()) == sub
}

/// Whether `sub` occurs anywhere in `s`.
pub open spec fn contains_sub(s: Seq<char>, sub: Seq<char>) -> bool {
    exists|i: int| has_sub_at(s, sub, i)
}

/// The first whitespace-delimited token of a line, when the line has one.
pub open spec fn spec_first_token(line: Seq<char>) -> Option<Seq<char>> {
    let a = spec_find_non_ws(line, 0);
    if a >= line.len() {
        None
    } else {
        Some(line.subrange(a, spec_find_ws(line, a)))
    }
}

/// The extraction result for the manifest tail that starts at position `i`:
/// the first token of the first line at or after `i` that contains `label`.
pub open spec fn spec_extract_from(m: Seq<char>, label: Seq<char>, i: int) -> Option<Seq<char>>
    decreases m.len() - i
        when 0 <= i <= m.len()
        via spec_extract_from_decreases
{
    let e = spec_find_nl(m, i);
    let line = m.subrange(i, e);
    if contains_sub(line, label) {
        spec_first_token(line)
    } else if e >= m.len() {
        None
    } else {
        spec_extract_from(m, label, e + 1)
    }
}

#[via_fn]
proof fn spec_extract_from_decreases(m: Seq<char>, label: Seq<char>, i: int) {
    lemma_find_nl(m, i);
}

/// The first whitespace-delimited token of the first line of `m` that
/// contains `label`, or nothing when no line does (or the matching line is
/// blank).
pub open spec fn spec_extract(m: Seq<char>, label: Seq<char>) -> Option<Seq<char>> {
    spec_extract_from(m, label, 0)
}

/// Finds the first newline at or after `from`.
fn find_nl(s: &str, from: usize) -> (r: usize)
    requires
        from <= s@.len(),
    ensures
        r == spec_find_nl(s@, from as int),
{
    let n = s.unicode_len();
    let mut i = from;
    while i < n
        invariant
            from <= i <= n,
            n == s@.len(),
            spec_find_nl(s@, from as int) == spec_find_nl(s@, i as int),
        decreases n - i,
    {
        if s.get_char(i) == '\n' {
            return i;
        }
        i = i + 1;
    }
    i
}

/// Finds the first non-separator character at or after `from`.
fn find_non_ws(s: &str, from: usize) -> (r: usize)
    requires
        from <= s@.len(),
    ensures
        r == spec_find_non_ws(s@, from as int),
{
    let n = s.unicode_len();
    let mut i = from;
    while i < n
        invariant
            from <= i <= n,
            n == s@.len(),
            spec_find_non_ws(s@, from as int) == spec_find_non_ws(s@, i as int),
        decreases n - i,
    {
        let c = s.get_char(i);
        if !(c == ' ' || c == '\t' || c == '\r' || c == '\n') {
            return i;
        }
        i = i + 1;
    }
    i
}

/// Finds the first separator character at or after `from`.
fn find_ws(s: &str, from: usize) -> (r: usize)
    requires
        from <= s@.len(),
    ensures
        r == spec_find_ws(s@, from as int),
{
    let n = s.unicode_len();
    let mut i = from;
    while i < n
        invariant
            from <= i <= n,
            n == s@.len(),
            spec_find_ws(s@, from as int) == spec_find_ws(s@, i as int),
        decreases n - i,
    {
        let c = s.get_char(i);
        if c == ' ' || c == '\t' || c == '\r' || c == '\n' {
            return i;
        }
        i = i + 1;
    }
    i
}

/// Whether `sub` occurs in `s` starting exactly at `i`.
pub(crate) fn eq_at(s: &str, sub: &str, i: usize) -> (r: bool)
    requires
        i + sub@.len() <= s@.len(),
    ensures
        r == has_sub_at(s@, sub@, i as int),
{
    let n = s.unicode_len();
    let m = sub.unicode_len();
    let mut k: usize = 0;
    while k < m
        invariant
            k <= m,
            m == sub@.len(),
            n == s@.len(),
            i + m <= n,
            forall|t: int| 0 <= t < k ==> s@[i + t] == sub@[t],
        decreases m - k,
    {
        if s.get_char(i + k) != sub.get_char(k) {
            proof {
                assert(s@.subrange(i as int, i + m)[k as int] == s@[i + k]);
            }
            return false;
        }
        k = k + 1;
    }
    proof {
        assert(s@.subrange(i as int, i + m) =~= sub@);
    }
    true
}

/// Whether `sub` occurs anywhere in `s`.
pub fn contains_str(s: &str, sub: &str) -> (r: bool)
    ensures
        r == contains_sub(s@, sub@),
{
    let n = s.unicode_len();
    let m = sub.unicode_len();
    if m > n {
        proof {
            assert(forall|i: int| !has_sub_at(s@, sub@, i));
        }
        return false;
    }
    let mut i: usize = 0;
    loop
        invariant
            m <= n,
            n == s@.len(),
            m == sub@.len(),
            i <= n - m,
            forall|j: int| 0 <= j < i ==> !has_sub_at(s@, sub@, j),
        decreases n - m - i,
    {
        if eq_at(s, sub, i) {
            return true;
        }
        if i == n - m {
            proof {
                assert(forall|j: int| has_sub_at(s@, sub@, j) ==> 0 <= j <= i);
            }
            return false;
        }
        i = i + 1;
    }
}

/// A substring of a slice of `m` is a substring of `m` itself.
proof fn lemma_contains_in_subrange(m: Seq<char>, label: Seq<char>, i: int, e: int)
    requires
        0 <= i <= e <= m.len(),
        contains_sub(m.subrange(i, e), label),
    ensures
        contains_sub(m, label),
{
    let j = choose|j: int| has_sub_at(m.subrange(i, e), label, j);
    assert(m.subrange(i + j, i + j + label.len()) =~= m.subrange(i, e).subrange(
        j,
        j + label.len(),
    ));
    assert(has_sub_at(m, label, i + j));
}

proof fn lemma_extract_absent_from(m: Seq<char>, label: Seq<char>, i: int)
    requires
        0 <= i <= m.len(),
        !contains_sub(m, label),
    ensures
        spec_extract_from(m, label, i) is None,
    decreases m.len() - i,
{
    lemma_find_nl(m, i);
    let e = spec_find_nl(m, i);
    if contains_sub(m.subrange(i, e), label) {
        lemma_contains_in_subrange(m, label, i, e);
    }
    if e < m.len() {
        lemma_extract_absent_from(m, label, e + 1);
    }
}

/// A label that occurs nowhere in the manifest is never extracted: the
/// lookup reports the label as absent.
pub proof fn lemma_extract_absent(m: Seq<char>, label: Seq<char>)
    requires
        !contains_sub(m, label),
    ensures
        spec_extract(m, label) is None,
{
    lemma_extract_absent_from(m, label, 0);
}

/// Whether two string slices hold the same characters.
pub fn str_eq(a: &str, b: &str) -> (r: bool)
    ensures
        r == (a@ == b@),
{
    let n = a.unicode_len();
    let m = b.unicode_len();
    if n != m {
        return false;
    }
    let r = eq_at(a, b, 0);
    proof {
        if r {
            assert(a@.subrange(0, m as int) =~= a@);
        } else {
            assert(a@.subrange(0, m as int) =~= a@);
        }
    }
    r
}

/// Extracts a checksum from a line-oriented manifest: the first
/// whitespace-delimited token of the first line whose text contains
/// `label`. Fails with `NotFound` when no line contains `label` or the
/// matching line holds no token.
pub fn extract(manifest: &str, label: &str) -> (r: Result<String, Error>)
    ensures
        match spec_extract(manifest@, label@) {
            Some(t) => r matches Ok(s) && s@ == t,
            None => r matches Err(e) && e matches Error::NotFound(l) && l@ == label@,
        },
{
    let n = manifest.unicode_len();
    let mut i: usize = 0;
    loop
        invariant
            i <= n,
            n == manifest@.len(),
            spec_extract(manifest@, label@) == spec_extract_from(manifest@, label@, i as int),
        decreases n - i,
    {
        let e = find_nl(manifest, i);
        proof {
            lemma_find_nl(manifest@, i as int);
        }
        let line = manifest.substring_char(i, e);
        if contains_str(line, label) {
            let llen = line.unicode_len();
            let a = find_non_ws(line, 0);
            proof {
                lemma_find_non_ws(line@, 0);
            }
            if a >= llen {
                return Err(Error::NotFound(label.to_owned()));
            }
            let b = find_ws(line, a);
            proof {
                lemma_find_ws(line@, a as int);
            }
            return Ok(line.substring_char(a, b).to_owned());
        }
        if e >= n {
            return Err(Error::NotFound(label.to_owned()));
        }
        i = e + 1;
    }
}

/// The checksums of the three release artifacts that the metadata files
/// track, keyed by role.
#[derive(Debug, Clone, PartialEq, Eq)]
pub struct ChecksumSet {
    /// Checksum of the aarch64 build.
    pub aarch: String,
    /// Checksum of the x64 build.
    pub x64: String,
    /// Checksum of the x64 baseline build.
    pub baseline: String,
}

/// The manifest label of the aarch64 artifact.
pub open spec fn spec_label_aarch() -> Seq<char> {
    "bun-linux-aarch64.zip"@
}

/// The manifest label of the x64 artifact.
pub open spec fn spec_label_x64() -> Seq<char> {
    "bun-linux-x64.zip"@
}

/// The manifest label of the x64 baseline artifact.
pub open spec fn spec_label_baseline() -> Seq<char> {
    "bun-linux-x64-baseline.zip"@
}

/// Extracts the three tracked checksums from the manifest; fails exactly
/// when one of the three labels yields no token, naming the first label
/// that did not.
pub fn extract_checksums(manifest: &str) -> (r: Result<ChecksumSet, Error>)
    ensures
        match r {
            Ok(cs) => {
                &&& spec_extract(manifest@, spec_label_aarch()) == Some(cs.aarch@)
                &&& spec_extract(manifest@, spec_label_x64()) == Some(cs.x64@)
                &&& spec_extract(manifest@, spec_label_baseline()) == Some(cs.baseline@)
            },
            Err(e) => {
                &&& e matches Error::NotFound(lbl)
                &&& (if spec_extract(manifest@, spec_label_aarch()) is None {
                    lbl@ == spec_label_aarch()
                } else if spec_extract(manifest@, spec_label_x64()) is None {
                    lbl@ == spec_label_x64()
                } else {
                    spec_extract(manifest@, spec_label_baseline()) is None && lbl@
                        == spec_label_baseline()
                })
            },
        },
{
    let aarch = match extract(manifest, "bun-linux-aarch64.zip") {
        Ok(t) => t,
        Err(e) => { return Err(e); },
    };
    let x64 = match extract(manifest, "bun-linux-x64.zip") {
        Ok(t) => t,
        Err(e) => { return Err(e); },
    };
    let baseline = match extract(manifest, "bun-linux-x64-baseline.zip") {
        Ok(t) => t,
        Err(e) => { return Err(e); },
    };
    Ok(ChecksumSet { aarch, x64, baseline })
}

} // verus!
