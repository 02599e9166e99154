//! Patch application.
//!
//! A substitution is applied to a file's content in memory: the first
//! position where the whole pattern matches (prefix, then a maximal nonempty
//! run of value characters, then the closing delimiter) has the run replaced
//! by the new value. A file patch applies its substitutions in declared
//! order; a substitution that matches nowhere is a fatal `PatternError`.

use vstd::prelude::*;
use vstd::string::StrSliceExecFns;
use vstd::string::StringExecFns;
use crate::plan::{CharClass, SubModel, Substitution, char_in_class, in_class, sub_wf};
use crate::Error;

verus! {

/// The end of the run of `cl` characters that starts at `i`: the first
/// position at or after `i` holding no `cl` character, or the length.
pub open spec fn spec_run_end(s: Seq<char>, cl: CharClass, i: int) -> int
    decreases s.len() - i
        when 0 <= i <= s.len()
{
    if i >= s.len() {
        s.len() as int
    } else if !in_class(cl, s[i]) {
        i
    } else {
        spec_run_end(s, cl, i + 1)
    }
}

pub proof fn lemma_run_end(s: Seq<char>, cl: CharClass, i: int)
    requires
        0 <= i <= s.len(),
    ensures
        i <= spec_run_end(s, cl, i) <= s.len(),
        spec_run_end(s, cl, i) < s.len() ==> !in_class(cl, s[spec_run_end(s, cl, i)]),
        forall|k: int| i <= k < spec_run_end(s, cl, i) ==> in_class(cl, #[trigger] s[k]),
    decreases s.len() - i,
{
    if i < s.len() && in_class(cl, s[i]) {
        lemma_run_end(s, cl, i + 1);
    }
}

/// The run's end is determined by its content: if everything in `[i, q)` is
/// in the class and `q` is the length or holds a non-class character, the
/// run that starts at `i` ends at `q`.
pub proof fn lemma_run_end_determined(s: Seq<char>, cl: CharClass, i: int, q: int)
    requires
        0 <= i <= q <= s.len(),
        forall|k: int| i <= k < q ==> in_class(cl, #[trigger] s[k]),
        q == s.len() || !in_class(cl, s[q]),
    ensures
        spec_run_end(s, cl, i) == q,
    decreases q - i,
{
    if i < q {
        lemma_run_end_determined(s, cl, i + 1, q);
    }
}

/// Whether the whole pattern of `sub` matches in `s` at position `i`:
/// the prefix, then a nonempty run of value characters, then the suffix.
pub open spec fn spec_match_at(s: Seq<char>, sub: SubModel, i: int) -> bool {
    let p = i + sub.prefix.len();
    let e = spec_run_end(s, sub.class, p);
    &&& 0 <= i
    &&& p <= s.len()
    &&& s.subrange(i, p) == sub.prefix
    &&& e > p
    &&& e + sub.suffix.len() <= s.len()
    &&& s.subrange(e, e + sub.suffix.len()) == sub.suffix
}

/// The position past the end of the whole match at `i`.
pub open spec fn spec_match_end(s: Seq<char>, sub: SubModel, i: int) -> int {
    spec_run_end(s, sub.class, i + sub.prefix.len()) + sub.suffix.len()
}

/// The first position at or after `i` where the whole pattern matches.
pub open spec fn spec_first_match_from(s: Seq<char>, sub: SubModel, i: int) -> Option<int>
    decreases s.len() - i
        when 0 <= i <= s.len()
{
    if spec_match_at(s, sub, i) {
        Some(i)
    } else if i >= s.len() {
        None
    } else {
        spec_first_match_from(s, sub, i + 1)
    }
}

pub proof fn lemma_first_match(s: Seq<char>, sub: SubModel, i: int)
    requires
        0 <= i <= s.len(),
    ensures
        match spec_first_match_from(s, sub, i) {
            Some(j) => {
                &&& i <= j <= s.len()
                &&& spec_match_at(s, sub, j)
                &&& forall|k: int| i <= k < j ==> !spec_match_at(s, sub, k)
            },
            None => forall|k: int| i <= k ==> !spec_match_at(s, sub, k),
        },
    decreases s.len() - i,
{
    if !spec_match_at(s, sub, i) && i < s.len() {
        lemma_first_match(s, sub, i + 1);
    }
    if spec_first_match_from(s, sub, i) is None {
        assert forall|k: int| i <= k implies !spec_match_at(s, sub, k) by {
            if k > s.len() {
                assert(k + sub.prefix.len() > s.len());
            }
        }
    }
}

/// The first match determines the lookup: if nothing matches in `[a, i)` and
/// `i` matches, the first match at or after `a` is `i`.
pub proof fn lemma_first_match_determined(s: Seq<char>, sub: SubModel, a: int, i: int)
    requires
        0 <= a <= i <= s.len(),
        forall|k: int| a <= k < i ==> !spec_match_at(s, sub, k),
        spec_match_at(s, sub, i),
    ensures
        spec_first_match_from(s, sub, a) == Some(i),
    decreases i - a,
{
    if a < i {
        lemma_first_match_determined(s, sub, a + 1, i);
    }
}

/// The result of applying `sub` to `s`: nothing when the pattern matches
/// nowhere; otherwise `s` with the matched run replaced by the new value,
/// and nothing else altered.
pub open spec fn spec_apply_sub(s: Seq<char>, sub: SubModel) -> Option<Seq<char>> {
    match spec_first_match_from(s, sub, 0) {
        None => None,
        Some(i) => Some(
            s.take(i) + sub.prefix + sub.value + sub.suffix + s.skip(spec_match_end(s, sub, i)),
        ),
    }
}

/// Finds the end of the run of `cl` characters starting at `from`.
fn run_end(s: &str, cl: CharClass, from: usize) -> (r: usize)
    requires
        from <= s@.len(),
    ensures
        r == spec_run_end(s@, cl, from as int),
{
    let n = s.unicode_len();
    let mut i = from;
    while i < n
        invariant
            from <= i <= n,
            n == s@.len(),
            spec_run_end(s@, cl, from as int) == spec_run_end(s@, cl, i as int),
        decreases n - i,
    {
        if !char_in_class(cl, s.get_char(i)) {
            return i;
        }
        i = i + 1;
    }
    i
}

/// Decides whether the whole pattern of `sub` matches in `s` at `i`.
fn match_here(s: &str, sub: &Substitution, i: usize) -> (r: bool)
    requires
        i <= s@.len(),
    ensures
        r == spec_match_at(s@, sub@, i as int),
{
    let n = s.unicode_len();
    let plen = sub.prefix.unicode_len();
    if plen > n - i {
        return false;
    }
    let p = i + plen;
    if !crate::checksum::eq_at(s, sub.prefix.as_str(), i) {
        return false;
    }
    let e = run_end(s, sub.class, p);
    proof {
        lemma_run_end(s@, sub@.class, p as int);
    }
    if e == p {
        return false;
    }
    let slen = sub.suffix.unicode_len();
    if slen > n - e {
        return false;
    }
    crate::checksum::eq_at(s, sub.suffix.as_str(), e)
}

/// Applies one substitution to the content: the first position where the
/// whole pattern matches has its value run replaced by `sub.value`. Fails
/// exactly when the pattern matches nowhere, naming the field text that
/// opens the pattern.
pub fn apply_substitution(content: &str, sub: &Substitution) -> (r: Result<String, Error>)
    ensures
        match spec_apply_sub(content@, sub@) {
            Some(out) => r matches Ok(s) && s@ == out,
            None => r matches Err(e) && e matches Error::PatternError(p) && p@ == sub@.prefix,
        },
{
    let n = content.unicode_len();
    let mut i: usize = 0;
    loop
        invariant
            i <= n,
            n == content@.len(),
            spec_first_match_from(content@, sub@, 0) == spec_first_match_from(
                content@,
                sub@,
                i as int,
            ),
        decreases n - i,
    {
        if match_here(content, sub, i) {
            let plen = sub.prefix.unicode_len();
            let e = run_end(content, sub.class, i + plen);
            let slen = sub.suffix.unicode_len();
            proof {
                lemma_run_end(content@, sub@.class, i + plen);
            }
            let end = e + slen;
            let mut out = content.substring_char(0, i).to_owned();
            out.append(sub.prefix.as_str());
            out.append(sub.value.as_str());
            out.append(sub.suffix.as_str());
            out.append(content.substring_char(end, n));
            proof {
                assert(out@ =~= content@.take(i as int) + sub@.prefix + sub@.value + sub@.suffix
                    + content@.skip(spec_match_end(content@, sub@, i as int)));
            }
            return Ok(out);
        }
        if i == n {
            return Err(Error::PatternError(sub.prefix.clone()));
        }
        i = i + 1;
    }
}

/// The result of applying a file patch's substitutions in order: nothing
/// when one of them matches nowhere.
pub open spec fn spec_apply_subs(s: Seq<char>, subs: Seq<SubModel>) -> Option<Seq<char>>
    decreases subs.len(),
{
    if subs.len() == 0 {
        Some(s)
    } else {
        match spec_apply_sub(s, subs[0]) {
            None => None,
            Some(s2) => spec_apply_subs(s2, subs.skip(1)),
        }
    }
}

/// Applies a file patch's substitutions to the content, in declared order.
/// Returns the rewritten content and whether it differs from the input: the
/// content is to be written back only when it changed. Fails exactly when
/// some substitution in the chain matches nowhere, naming the field text
/// that opens that substitution's pattern.
pub fn apply_subs(content: &str, subs: &Vec<Substitution>) -> (r: Result<(String, bool), Error>)
    ensures
        match spec_apply_subs(content@, Seq::new(subs@.len(), |i: int| subs@[i]@)) {
            Some(out) => r matches Ok(p) && p.0@ == out && p.1 == (out != content@),
            None => r matches Err(e) && e matches Error::PatternError(p) && exists|k: int|
                0 <= k < subs@.len() && p@ == #[trigger] subs@[k]@.prefix,
        },
{
    let ghost subs_m = Seq::new(subs@.len(), |i: int| subs@[i]@);
    let mut cur: String = content.to_owned();
    let mut k: usize = 0;
    proof {
        assert(subs_m.skip(0) =~= subs_m);
    }
    while k < subs.len()
        invariant
            k <= subs@.len(),
            subs_m == Seq::new(subs@.len(), |i: int| subs@[i]@),
            spec_apply_subs(content@, subs_m) == spec_apply_subs(cur@, subs_m.skip(k as int)),
        decreases subs@.len() - k,
    {
        proof {
            assert(subs_m.skip(k as int)[0] == subs@[k as int]@);
        }
        match apply_substitution(cur.as_str(), &subs[k]) {
            Ok(next) => {
                proof {
                    assert(subs_m.skip(k as int).skip(1) =~= subs_m.skip(k + 1));
                }
                cur = next;
            },
            Err(e) => {
                return Err(e);
            },
        }
        k = k + 1;
    }
    proof {
        assert(subs_m.skip(k as int) =~= Seq::<SubModel>::empty());
    }
    let changed = !crate::checksum::str_eq(cur.as_str(), content);
    Ok((cur, changed))
}

/// The run that starts at `i` ends no later than a non-class position `q`.
pub proof fn lemma_run_end_bounded(s: Seq<char>, cl: CharClass, i: int, q: int)
    requires
        0 <= i <= q < s.len(),
        !in_class(cl, s[q]),
    ensures
        spec_run_end(s, cl, i) <= q,
    decreases q - i,
{
    if i < q && in_class(cl, s[i]) {
        lemma_run_end_bounded(s, cl, i + 1, q);
    }
}

/// Where each character of the rewritten content comes from, region by
/// region: the text before the match, the prefix, the new value, the
/// suffix, and the tail after the old match.
proof fn lemma_out_index(s: Seq<char>, sub: SubModel, i: int, end: int, out: Seq<char>)
    requires
        0 <= i,
        i + sub.prefix.len() <= end <= s.len(),
        s.subrange(i, i + sub.prefix.len()) == sub.prefix,
        out == s.take(i) + sub.prefix + sub.value + sub.suffix + s.skip(end),
    ensures
        out.len() == i + sub.prefix.len() + sub.value.len() + sub.suffix.len() + (s.len() - end),
        forall|k: int| 0 <= k < i + sub.prefix.len() ==> #[trigger] out[k] == s[k],
        forall|k: int|
            i + sub.prefix.len() <= k < i + sub.prefix.len() + sub.value.len() ==> #[trigger] out[k]
                == sub.value[k - i - sub.prefix.len()],
        forall|k: int|
            i + sub.prefix.len() + sub.value.len() <= k < i + sub.prefix.len() + sub.value.len()
                + sub.suffix.len() ==> #[trigger] out[k] == sub.suffix[k - i - sub.prefix.len()
                - sub.value.len()],
        forall|k: int|
            i + sub.prefix.len() + sub.value.len() + sub.suffix.len() <= k < out.len()
                ==> #[trigger] out[k] == s[k - i - sub.prefix.len() - sub.value.len()
                - sub.suffix.len() + end],
{
    let plen = sub.prefix.len() as int;
    assert forall|k: int| 0 <= k < i + plen implies #[trigger] out[k] == s[k] by {
        if k < i {
            assert(out[k] == s.take(i)[k]);
        } else {
            assert(out[k] == sub.prefix[k - i]);
            assert(sub.prefix[k - i] == s.subrange(i, i + plen)[k - i]);
        }
    }
}

/// Everything `lemma_apply_idempotent` and `lemma_round_trip` need about
/// one application: where the match lands in the rewritten content.
proof fn lemma_apply_structure(s: Seq<char>, sub: SubModel, out: Seq<char>)
    requires
        sub_wf(sub),
        spec_apply_sub(s, sub) == Some(out),
    ensures
        spec_first_match_from(s, sub, 0) is Some,
        ({
            let i = spec_first_match_from(s, sub, 0)->Some_0;
            let p = i + sub.prefix.len();
            let q = p + sub.value.len();
            &&& spec_first_match_from(out, sub, 0) == Some(i)
            &&& spec_run_end(out, sub.class, p) == q
            &&& out.subrange(p, q) == sub.value
            &&& spec_match_end(out, sub, i) == q + sub.suffix.len()
            &&& out.take(i) == s.take(i)
            &&& out.skip(q + sub.suffix.len()) == s.skip(spec_match_end(s, sub, i))
        }),
{
    lemma_first_match(s, sub, 0);
    let i = spec_first_match_from(s, sub, 0)->Some_0;
    let plen = sub.prefix.len() as int;
    let vlen = sub.value.len() as int;
    let slen = sub.suffix.len() as int;
    let p = i + plen;
    let e = spec_run_end(s, sub.class, p);
    lemma_run_end(s, sub.class, p);
    let end = e + slen;
    let q = p + vlen;
    lemma_out_index(s, sub, i, end, out);

    // The whole pattern matches in `out` at `i`, with the new value as its run.
    assert(out.subrange(i, p) =~= sub.prefix);
    assert forall|k: int| p <= k < q implies in_class(sub.class, #[trigger] out[k]) by {
        assert(out[k] == sub.value[k - p]);
    }
    if slen == 1 {
        assert(out[q] == sub.suffix[0]);
        lemma_run_end_determined(out, sub.class, p, q);
    } else {
        if q < out.len() {
            assert(out[q] == s[e]);
        }
        lemma_run_end_determined(out, sub.class, p, q);
    }
    assert(out.subrange(q, q + slen) =~= sub.suffix);
    assert(spec_match_at(out, sub, i));

    // Nothing matches in `out` before `i`: a match there would have been a
    // match in `s` before `i`, where nothing matches.
    assert forall|j: int| 0 <= j < i implies !spec_match_at(out, sub, j) by {
        if spec_match_at(out, sub, j) {
            let jp = j + plen;
            assert(out.subrange(j, jp) == sub.prefix);
            assert(s.subrange(j, jp) =~= out.subrange(j, jp));
            let es = spec_run_end(s, sub.class, jp);
            lemma_run_end(s, sub.class, jp);
            let eo = spec_run_end(out, sub.class, jp);
            lemma_run_end(out, sub.class, jp);
            if jp <= i {
                // The run cannot pass the prefix that opens the match at `i`.
                assert(s[i] == s.subrange(i, p)[0]);
                assert(!in_class(sub.class, s[i]));
                lemma_run_end_bounded(s, sub.class, jp, i);
                assert forall|k: int| jp <= k < es implies in_class(
                    sub.class,
                    #[trigger] out[k],
                ) by {
                    assert(out[k] == s[k]);
                }
                assert(out[es] == s[es]);
                lemma_run_end_determined(out, sub.class, jp, es);
                assert(out.subrange(es, es + slen) =~= s.subrange(es, es + slen));
                assert(spec_match_at(s, sub, j));
            } else {
                // The prefix at `j` overlaps the one at `i`.
                if es < p {
                    assert forall|k: int| jp <= k < es implies in_class(
                        sub.class,
                        #[trigger] out[k],
                    ) by {
                        assert(out[k] == s[k]);
                    }
                    assert(out[es] == s[es]);
                    lemma_run_end_determined(out, sub.class, jp, es);
                    assert(out.subrange(es, es + slen) =~= s.subrange(es, es + slen));
                    assert(spec_match_at(s, sub, j));
                } else {
                    // The run from `j` merges into the run of the match at
                    // `i`, so `j` was already a full match in `s`.
                    assert forall|k: int| jp <= k < e implies in_class(
                        sub.class,
                        #[trigger] s[k],
                    ) by {
                        if k < p {
                            assert(k < es);
                        }
                    }
                    lemma_run_end_determined(s, sub.class, jp, e);
                    assert(spec_match_at(s, sub, j));
                }
            }
        }
    }
    lemma_first_match_determined(out, sub, 0, i);
    assert(out.subrange(p, q) =~= sub.value);
    assert(out.take(i) =~= s.take(i));
    assert(out.skip(q + slen) =~= s.skip(end));
}

/// Applying a substitution is idempotent: the rewritten content is a fixed
/// point of the same substitution, so a re-run rewrites nothing.
pub proof fn lemma_apply_idempotent(s: Seq<char>, sub: SubModel, out: Seq<char>)
    requires
        sub_wf(sub),
        spec_apply_sub(s, sub) == Some(out),
    ensures
        spec_apply_sub(out, sub) == Some(out),
{
    lemma_apply_structure(s, sub, out);
    let i = spec_first_match_from(s, sub, 0)->Some_0;
    let p = i + sub.prefix.len();
    let q = p + sub.value.len();
    let out2 = out.take(i) + sub.prefix + sub.value + sub.suffix + out.skip(
        spec_match_end(out, sub, i),
    );
    assert(out2 == s.take(i) + sub.prefix + sub.value + sub.suffix + s.skip(
        spec_match_end(s, sub, i),
    ));
}

/// Round trip: after one application the field holds exactly the new value,
/// and nothing outside the matched field is altered — the content before
/// the match and after it is the original, character for character.
pub proof fn lemma_round_trip(s: Seq<char>, sub: SubModel, out: Seq<char>)
    requires
        sub_wf(sub),
        spec_apply_sub(s, sub) == Some(out),
    ensures
        spec_first_match_from(s, sub, 0) is Some,
        ({
            let i = spec_first_match_from(s, sub, 0)->Some_0;
            let p = i + sub.prefix.len();
            &&& spec_first_match_from(out, sub, 0) == Some(i)
            &&& out.subrange(p, spec_run_end(out, sub.class, p)) == sub.value
            &&& out.take(i) == s.take(i)
            &&& out.skip(p + sub.value.len() + sub.suffix.len()) == s.skip(
                spec_match_end(s, sub, i),
            )
        }),
{
    lemma_apply_structure(s, sub, out);
}

/// A content on which the whole pattern matches with the new value already
/// in place is left unchanged by the substitution.
pub proof fn lemma_apply_at_value_noop(s: Seq<char>, sub: SubModel)
    requires
        spec_first_match_from(s, sub, 0) is Some,
        ({
            let i = spec_first_match_from(s, sub, 0)->Some_0;
            let p = i + sub.prefix.len();
            s.subrange(p, spec_run_end(s, sub.class, p)) == sub.value
        }),
    ensures
        spec_apply_sub(s, sub) == Some(s),
{
    lemma_first_match(s, sub, 0);
    let i = spec_first_match_from(s, sub, 0)->Some_0;
    let p = i + sub.prefix.len();
    let e = spec_run_end(s, sub.class, p);
    lemma_run_end(s, sub.class, p);
    let end = e + sub.suffix.len();
    let out = s.take(i) + sub.prefix + sub.value + sub.suffix + s.skip(end);
    assert forall|k: int| 0 <= k < out.len() implies #[trigger] out[k] == s[k] by {
        if k < i {
            assert(out[k] == s.take(i)[k]);
        } else if k < p {
            assert(out[k] == sub.prefix[k - i]);
            assert(sub.prefix[k - i] == s.subrange(i, p)[k - i]);
        } else if k < e {
            assert(out[k] == sub.value[k - p]);
            assert(sub.value[k - p] == s.subrange(p, e)[k - p]);
        } else if k < end {
            assert(out[k] == sub.suffix[k - e]);
            assert(sub.suffix[k - e] == s.subrange(e, end)[k - e]);
        } else {
            assert(out[k] == s.skip(end)[k - end]);
        }
    }
    assert(out =~= s);
}

/// Idempotence of a whole file patch on a file that is already at the
/// target version: when every substitution of the patch leaves the content
/// unchanged, the patch as a whole does, and the file is not reported as
/// changed.
pub proof fn lemma_patch_noop(s: Seq<char>, subs: Seq<SubModel>)
    requires
        forall|k: int| 0 <= k < subs.len() ==> spec_apply_sub(s, #[trigger] subs[k]) == Some(s),
    ensures
        spec_apply_subs(s, subs) == Some(s),
    decreases subs.len(),
{
    if subs.len() > 0 {
        assert(spec_apply_sub(s, subs[0]) == Some(s));
        assert forall|k: int| 0 <= k < subs.skip(1).len() implies spec_apply_sub(
            s,
            #[trigger] subs.skip(1)[k],
        ) == Some(s) by {
            assert(subs.skip(1)[k] == subs[k + 1]);
        }
        lemma_patch_noop(s, subs.skip(1));
    }
}

} // verus!
