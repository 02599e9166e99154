//! Version normalization and comparison.
//!
//! The downstream registry reports versions with a trailing package-release
//! counter (`1.0.28-1`); the upstream release tags carry a fixed prefix
//! (`bun-v1.0.28`). Each side is normalized by its own rule before the two
//! are compared.

use vstd::prelude::*;
use vstd::string::StrSliceExecFns;
use vstd::string::StringExecFns;

verus! {

/// The upstream tag prefix that is stripped before comparison.
pub open spec fn spec_tag_prefix() -> Seq<char> {
    "bun-v"@
}

/// The trailing downstream release counter that is stripped before comparison.
pub open spec fn spec_release_suffix() -> Seq<char> {
    "-1"@
}

/// An upstream tag, normalized: the known prefix is removed when present,
/// once; anything else is returned unchanged.
pub open spec fn spec_strip_tag_prefix(tag: Seq<char>) -> Seq<char> {
    if tag.len() >= 5 && tag.subrange(0, 5) == spec_tag_prefix() {
        tag.skip(5)
    } else {
        tag
    }
}

/// A downstream version, normalized: one trailing release counter is
/// removed when present; anything else is returned unchanged.
pub open spec fn spec_normalize_downstream(v: Seq<char>) -> Seq<char> {
    if v.len() >= 2 && v.subrange(v.len() - 2, v.len() as int) == spec_release_suffix() {
        v.take(v.len() - 2)
    } else {
        v
    }
}

/// Strips the known upstream tag prefix, once, when present.
pub fn strip_tag_prefix(tag: &str) -> (r: String)
    ensures
        r@ == spec_strip_tag_prefix(tag@),
{
    proof {
        reveal_strlit("bun-v");
    }
    let n = tag.unicode_len();
    if n >= 5 && tag.get_char(0) == 'b' && tag.get_char(1) == 'u' && tag.get_char(2) == 'n'
        && tag.get_char(3) == '-' && tag.get_char(4) == 'v' {
        proof {
            assert(tag@.subrange(0, 5) =~= spec_tag_prefix());
        }
        tag.substring_char(5, n).to_owned()
    } else {
        proof {
            if n >= 5 {
                let sub = tag@.subrange(0, 5);
                assert(sub[0] == tag@[0] && sub[1] == tag@[1] && sub[2] == tag@[2]
                    && sub[3] == tag@[3] && sub[4] == tag@[4]);
                assert(sub != spec_tag_prefix());
            }
        }
        tag.to_owned()
    }
}

/// Strips one trailing downstream release counter, when present.
pub fn normalize_downstream(v: &str) -> (r: String)
    ensures
        r@ == spec_normalize_downstream(v@),
{
    proof {
        reveal_strlit("-1");
    }
    let n = v.unicode_len();
    if n >= 2 && v.get_char(n - 2) == '-' && v.get_char(n - 1) == '1' {
        proof {
            assert(v@.subrange(v@.len() - 2, v@.len() as int) =~= spec_release_suffix());
        }
        v.substring_char(0, n - 2).to_owned()
    } else {
        proof {
            if n >= 2 {
                let sub = v@.subrange(v@.len() - 2, v@.len() as int);
                assert(sub[0] == v@[v@.len() - 2] && sub[1] == v@[v@.len() - 1]);
                assert(sub != spec_release_suffix());
            }
        }
        v.to_owned()
    }
}

/// Whether a downstream version and an upstream tag name the same release,
/// each side normalized by its own rule first.
pub fn versions_match(downstream: &str, tag: &str) -> (r: bool)
    ensures
        r == (spec_normalize_downstream(downstream@) == spec_strip_tag_prefix(tag@)),
{
    let d = normalize_downstream(downstream);
    let t = strip_tag_prefix(tag);
    d.eq(&t)
}

} // verus!
