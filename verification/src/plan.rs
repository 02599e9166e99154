//! Patch planning.
//!
//! A patch plan is an ordered list of file patches; a file patch is an
//! ordered list of substitutions. Each substitution names one logical field
//! of a metadata file: a literal prefix (the field's assignment text), a
//! character class for the field's current value, an optional one-character
//! closing delimiter, and the replacement value. Substitutions within a file
//! apply strictly in declared order.

use vstd::prelude::*;
use vstd::string::StrSliceExecFns;
use vstd::string::StringExecFns;
use crate::checksum::ChecksumSet;
use crate::Error;

verus! {

/// The character class a field's value is drawn from.
#[derive(Clone, Copy, Debug, PartialEq, Eq, Structural)]
pub enum CharClass {
    /// Digits and dots, as in a version number.
    VersionChars,
    /// Hexadecimal digits, as in a checksum.
    HexChars,
}

/// Whether `c` belongs to the class `cl`.
pub open spec fn in_class(cl: CharClass, c: char) -> bool {
    match cl {
        CharClass::VersionChars => (48 <= c as u32 && c as u32 <= 57) || c as u32 == 46,
        CharClass::HexChars => (48 <= c as u32 && c as u32 <= 57) || (97 <= c as u32 && c as u32
            <= 102) || (65 <= c as u32 && c as u32 <= 70),
    }
}

/// Decides membership of `c` in the class `cl`.
pub fn char_in_class(cl: CharClass, c: char) -> (r: bool)
    ensures
        r == in_class(cl, c),
{
    let u = c as u32;
    match cl {
        CharClass::VersionChars => (48 <= u && u <= 57) || u == 46,
        CharClass::HexChars => (48 <= u && u <= 57) || (97 <= u && u <= 102) || (65 <= u && u
            <= 70),
    }
}

/// One substitution: replace the value of the field that `prefix` opens
/// (a maximal nonempty run of `class` characters, closed by `suffix`)
/// with `value`.
#[derive(Debug, Clone, PartialEq, Eq)]
pub struct Substitution {
    /// The literal text that opens the field.
    pub prefix: String,
    /// The class the field's current value is drawn from.
    pub class: CharClass,
    /// The literal text that closes the field: empty, or one delimiter.
    pub suffix: String,
    /// The replacement value.
    pub value: String,
}

/// The mathematical model of a substitution.
pub struct SubModel {
    pub prefix: Seq<char>,
    pub class: CharClass,
    pub suffix: Seq<char>,
    pub value: Seq<char>,
}

impl View for Substitution {
    type V = SubModel;

    open spec fn view(&self) -> SubModel {
        SubModel { prefix: self.prefix@, class: self.class, suffix: self.suffix@, value: self.value@ }
    }
}

/// Well-formedness of a substitution: the shape that makes its application
/// unambiguous and repeatable. The prefix is nonempty and does not open with
/// a value character; the value is nonempty and lies wholly in the class;
/// the suffix is at most one character and not a value character.
pub open spec fn sub_wf(s: SubModel) -> bool {
    &&& s.prefix.len() >= 1
    &&& !in_class(s.class, s.prefix[0])
    &&& s.value.len() >= 1
    &&& (forall|k: int| 0 <= k < s.value.len() ==> in_class(s.class, #[trigger] s.value[k]))
    &&& s.suffix.len() <= 1
    &&& (s.suffix.len() == 1 ==> !in_class(s.class, s.suffix[0]))
}

/// The substitutions for one metadata file, applied in order.
#[derive(Debug, Clone, PartialEq, Eq)]
pub struct Replaces {
    /// The file the substitutions belong to.
    pub filename: String,
    /// The substitutions, in application order.
    pub subs: Vec<Substitution>,
}

/// The mathematical model of a file patch.
pub struct ReplacesModel {
    pub filename: Seq<char>,
    pub subs: Seq<SubModel>,
}

impl View for Replaces {
    type V = ReplacesModel;

    open spec fn view(&self) -> ReplacesModel {
        ReplacesModel {
            filename: self.filename@,
            subs: Seq::new(self.subs@.len(), |i: int| self.subs@[i]@),
        }
    }
}

/// The model of a whole plan.
pub open spec fn plan_model(p: Seq<Replaces>) -> Seq<ReplacesModel> {
    Seq::new(p.len(), |i: int| p[i]@)
}

/// Every substitution of the patch is well formed.
pub open spec fn patch_wf(r: ReplacesModel) -> bool {
    forall|k: int| 0 <= k < r.subs.len() ==> sub_wf(#[trigger] r.subs[k])
}

/// Every patch of the plan is well formed.
pub open spec fn plan_wf(p: Seq<ReplacesModel>) -> bool {
    forall|k: int| 0 <= k < p.len() ==> patch_wf(#[trigger] p[k])
}

/// A valid version value: nonempty, all digits and dots.
pub open spec fn version_value_ok(v: Seq<char>) -> bool {
    v.len() >= 1 && (forall|k: int|
        0 <= k < v.len() ==> in_class(CharClass::VersionChars, #[trigger] v[k]))
}

/// A valid checksum value: nonempty, all hexadecimal digits.
pub open spec fn hex_value_ok(v: Seq<char>) -> bool {
    v.len() >= 1 && (forall|k: int| 0 <= k < v.len() ==> in_class(CharClass::HexChars, #[trigger] v[k]))
}

/// The substitutions planned for the registry metadata summary file.
pub open spec fn spec_srcinfo_subs(version: Seq<char>, aarch: Seq<char>, x64: Seq<char>) -> Seq<
    SubModel,
> {
    seq![
        SubModel {
            prefix: "pkgver = "@,
            class: CharClass::VersionChars,
            suffix: ""@,
            value: version,
        },
        SubModel {
            prefix: "sha256sums_aarch64 = "@,
            class: CharClass::HexChars,
            suffix: ""@,
            value: aarch,
        },
        SubModel {
            prefix: "sha256sums_x86_64 = "@,
            class: CharClass::HexChars,
            suffix: ""@,
            value: x64,
        },
    ]
}

/// The substitutions planned for the build recipe file.
pub open spec fn spec_pkgbuild_subs(
    version: Seq<char>,
    aarch: Seq<char>,
    x64: Seq<char>,
    baseline: Seq<char>,
) -> Seq<SubModel> {
    seq![
        SubModel { prefix: "pkgver="@, class: CharClass::VersionChars, suffix: ""@, value: version },
        SubModel {
            prefix: "sha256sums_aarch64=('"@,
            class: CharClass::HexChars,
            suffix: "'"@,
            value: aarch,
        },
        SubModel {
            prefix: "sha256sums_x86_64=('"@,
            class: CharClass::HexChars,
            suffix: "'"@,
            value: x64,
        },
        SubModel {
            prefix: "_baseline_sha256sums='"@,
            class: CharClass::HexChars,
            suffix: "'"@,
            value: baseline,
        },
    ]
}

/// The whole plan for one release: the two metadata files, each with its
/// ordered substitutions.
pub open spec fn spec_plan(
    version: Seq<char>,
    aarch: Seq<char>,
    x64: Seq<char>,
    baseline: Seq<char>,
) -> Seq<ReplacesModel> {
    seq![
        ReplacesModel { filename: ".SRCINFO"@, subs: spec_srcinfo_subs(version, aarch, x64) },
        ReplacesModel {
            filename: "PKGBUILD"@,
            subs: spec_pkgbuild_subs(version, aarch, x64, baseline),
        },
    ]
}

/// Decides whether every character of `s` lies in `cl`, and `s` is nonempty.
fn value_ok(s: &str, cl: CharClass) -> (r: bool)
    ensures
        r == (s@.len() >= 1 && (forall|k: int| 0 <= k < s@.len() ==> in_class(cl, #[trigger] s@[k]))),
{
    let n = s.unicode_len();
    if n == 0 {
        return false;
    }
    let mut i: usize = 0;
    while i < n
        invariant
            i <= n,
            n == s@.len(),
            forall|k: int| 0 <= k < i ==> in_class(cl, #[trigger] s@[k]),
        decreases n - i,
    {
        if !char_in_class(cl, s.get_char(i)) {
            return false;
        }
        i = i + 1;
    }
    true
}

fn mk_sub(prefix: &str, cl: CharClass, suffix: &str, value: &str) -> (r: Substitution)
    ensures
        r@ == (SubModel { prefix: prefix@, class: cl, suffix: suffix@, value: value@ }),
{
    Substitution {
        prefix: prefix.to_owned(),
        class: cl,
        suffix: suffix.to_owned(),
        value: value.to_owned(),
    }
}

/// Builds the patch plan for one release: deterministic in its two inputs.
/// Fails exactly when the version or a required checksum role is absent or
/// malformed (empty, or holding characters outside its class), naming the
/// first field, in plan order, whose value is not usable.
pub fn build_plan(version: &str, checksums: &ChecksumSet) -> (r: Result<Vec<Replaces>, Error>)
    ensures
        match r {
            Ok(plan) => {
                &&& version_value_ok(version@)
                &&& hex_value_ok(checksums.aarch@)
                &&& hex_value_ok(checksums.x64@)
                &&& hex_value_ok(checksums.baseline@)
                &&& plan_model(plan@) == spec_plan(
                    version@,
                    checksums.aarch@,
                    checksums.x64@,
                    checksums.baseline@,
                )
                &&& plan_wf(plan_model(plan@))
            },
            Err(e) => {
                &&& e matches Error::MissingField(f)
                &&& (if !version_value_ok(version@) {
                    f@ == "pkgver"@
                } else if !hex_value_ok(checksums.aarch@) {
                    f@ == "sha256sums_aarch64"@
                } else if !hex_value_ok(checksums.x64@) {
                    f@ == "sha256sums_x86_64"@
                } else {
                    !hex_value_ok(checksums.baseline@) && f@ == "_baseline_sha256sums"@
                })
            },
        },
{
    if !value_ok(version, CharClass::VersionChars) {
        return Err(Error::MissingField(String::from_str("pkgver")));
    }
    if !value_ok(checksums.aarch.as_str(), CharClass::HexChars) {
        return Err(Error::MissingField(String::from_str("sha256sums_aarch64")));
    }
    if !value_ok(checksums.x64.as_str(), CharClass::HexChars) {
        return Err(Error::MissingField(String::from_str("sha256sums_x86_64")));
    }
    if !value_ok(checksums.baseline.as_str(), CharClass::HexChars) {
        return Err(Error::MissingField(String::from_str("_baseline_sha256sums")));
    }
    let mut srcinfo_subs: Vec<Substitution> = Vec::new();
    srcinfo_subs.push(mk_sub("pkgver = ", CharClass::VersionChars, "", version));
    srcinfo_subs.push(
        mk_sub("sha256sums_aarch64 = ", CharClass::HexChars, "", checksums.aarch.as_str()),
    );
    srcinfo_subs.push(
        mk_sub("sha256sums_x86_64 = ", CharClass::HexChars, "", checksums.x64.as_str()),
    );
    let srcinfo = Replaces { filename: String::from_str(".SRCINFO"), subs: srcinfo_subs };
    let mut pkgbuild_subs: Vec<Substitution> = Vec::new();
    pkgbuild_subs.push(mk_sub("pkgver=", CharClass::VersionChars, "", version));
    pkgbuild_subs.push(
        mk_sub("sha256sums_aarch64=('", CharClass::HexChars, "'", checksums.aarch.as_str()),
    );
    pkgbuild_subs.push(
        mk_sub("sha256sums_x86_64=('", CharClass::HexChars, "'", checksums.x64.as_str()),
    );
    pkgbuild_subs.push(
        mk_sub("_baseline_sha256sums='", CharClass::HexChars, "'", checksums.baseline.as_str()),
    );
    let pkgbuild = Replaces { filename: String::from_str("PKGBUILD"), subs: pkgbuild_subs };
    let mut plan: Vec<Replaces> = Vec::new();
    plan.push(srcinfo);
    plan.push(pkgbuild);
    proof {
        let pm = plan_model(plan@);
        let sp = spec_plan(version@, checksums.aarch@, checksums.x64@, checksums.baseline@);
        assert(pm[0].subs =~= sp[0].subs);
        assert(pm[1].subs =~= sp[1].subs);
        assert(pm[0] == sp[0]);
        assert(pm[1] == sp[1]);
        assert(pm =~= sp);
        lemma_plan_literals_wf();
        assert(plan_wf(sp));
    }
    Ok(plan)
}

/// The literal field prefixes and delimiters of the plan do not open with a
/// value character: the facts `build_plan` needs to show its plan is well
/// formed.
proof fn lemma_plan_literals_wf()
    ensures
        !in_class(CharClass::VersionChars, "pkgver = "@[0]),
        !in_class(CharClass::VersionChars, "pkgver="@[0]),
        !in_class(CharClass::HexChars, "sha256sums_aarch64 = "@[0]),
        !in_class(CharClass::HexChars, "sha256sums_x86_64 = "@[0]),
        !in_class(CharClass::HexChars, "sha256sums_aarch64=('"@[0]),
        !in_class(CharClass::HexChars, "sha256sums_x86_64=('"@[0]),
        !in_class(CharClass::HexChars, "_baseline_sha256sums='"@[0]),
        !in_class(CharClass::VersionChars, "'"@[0]),
        !in_class(CharClass::HexChars, "'"@[0]),
        "pkgver = "@.len() == 9,
        "pkgver="@.len() == 7,
        "sha256sums_aarch64 = "@.len() == 21,
        "sha256sums_x86_64 = "@.len() == 20,
        "sha256sums_aarch64=('"@.len() == 21,
        "sha256sums_x86_64=('"@.len() == 20,
        "_baseline_sha256sums='"@.len() == 22,
        ""@.len() == 0,
        "'"@.len() == 1,
{
    reveal_strlit("pkgver = ");
    reveal_strlit("pkgver=");
    reveal_strlit("sha256sums_aarch64 = ");
    reveal_strlit("sha256sums_x86_64 = ");
    reveal_strlit("sha256sums_aarch64=('");
    reveal_strlit("sha256sums_x86_64=('");
    reveal_strlit("_baseline_sha256sums='");
    reveal_strlit("");
    reveal_strlit("'");
}

/// Plan construction is pure and deterministic: two plans built from the
/// same release version and the same checksums are the same plan.
pub proof fn lemma_plan_deterministic(
    p1: Seq<ReplacesModel>,
    p2: Seq<ReplacesModel>,
    version: Seq<char>,
    aarch: Seq<char>,
    x64: Seq<char>,
    baseline: Seq<char>,
)
    requires
        p1 == spec_plan(version, aarch, x64, baseline),
        p2 == spec_plan(version, aarch, x64, baseline),
    ensures
        p1 == p2,
{
}

} // verus!
