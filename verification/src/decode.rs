//! Decoding of the two external payloads: the upstream release listing and
//! the downstream registry's version query. Both arrive as JSON text; the
//! walk from text to document is handed to serde_json behind trusted
//! wrappers whose results are named — each call depends on its arguments
//! alone — while every field-presence check and every use of a field is
//! verified here, with the decoders' results pinned over those names.

use vstd::prelude::*;
use vstd::string::StrSliceExecFns;
use crate::bun_bin::{Asset, ReleaseDescriptor};
use crate::version::{normalize_downstream, spec_normalize_downstream};
use crate::Error;

verus! {

#[verifier::external_type_specification]
#[verifier::external_body]
pub struct ExValue(serde_json::Value);

/// The document that parsing a text yields, when the text is valid JSON.
pub uninterp spec fn spec_json_of(s: Seq<char>) -> Option<serde_json::Value>;

/// The value under a key, when the value is an object holding that key.
pub uninterp spec fn spec_field_of(v: serde_json::Value, key: Seq<char>) -> Option<
    serde_json::Value,
>;

/// The characters a value holds, when the value is a string.
pub uninterp spec fn spec_str_of(v: serde_json::Value) -> Option<Seq<char>>;

/// The elements a value holds, when the value is an array.
pub uninterp spec fn spec_array_of(v: serde_json::Value) -> Option<Seq<serde_json::Value>>;

/// Relies on serde_json::from_str: parses JSON text into a document, and
/// fails exactly on malformed text; the result depends on the text alone.
#[verifier::external_body]
fn parse_json(s: &str) -> (r: Result<serde_json::Value, Error>)
    ensures
        match r {
            Ok(v) => spec_json_of(s@) == Some(v),
            Err(e) => e == Error::ParseError && spec_json_of(s@) is None,
        },
{
    match serde_json::from_str::<serde_json::Value>(s) {
        Ok(v) => Ok(v),
        Err(_) => Err(Error::ParseError),
    }
}

/// Relies on serde_json::Value::get: the value of an object's field, when
/// the value is an object with that field; depends on its arguments alone.
#[verifier::external_body]
fn value_get_field<'a>(v: &'a serde_json::Value, key: &str) -> (r: Option<&'a serde_json::Value>)
    ensures
        match r {
            Some(f) => spec_field_of(*v, key@) == Some(*f),
            None => spec_field_of(*v, key@) is None,
        },
{
    v.get(key)
}

/// Relies on serde_json::Value::as_str: the string a value holds, when the
/// value is a string; depends on the value alone.
#[verifier::external_body]
fn value_as_str(v: &serde_json::Value) -> (r: Option<String>)
    ensures
        match r {
            Some(s) => spec_str_of(*v) == Some(s@),
            None => spec_str_of(*v) is None,
        },
{
    match v.as_str() {
        Some(s) => Some(s.to_owned()),
        None => None,
    }
}

/// Relies on serde_json::Value::as_array: the elements a value holds, when
/// the value is an array; depends on the value alone.
#[verifier::external_body]
fn value_as_array<'a>(v: &'a serde_json::Value) -> (r: Option<&'a Vec<serde_json::Value>>)
    ensures
        match r {
            Some(a) => spec_array_of(*v) == Some(a@),
            None => spec_array_of(*v) is None,
        },
{
    v.as_array()
}

/// The string under a key of an object, when the key is present and its
/// value is a string.
pub open spec fn spec_string_field(v: serde_json::Value, key: Seq<char>) -> Option<Seq<char>> {
    match spec_field_of(v, key) {
        Some(f) => spec_str_of(f),
        None => None,
    }
}

/// Reads an object's string field, or nothing when the field is absent or
/// not a string.
fn get_string_field(v: &serde_json::Value, key: &str) -> (r: Option<String>)
    ensures
        match r {
            Some(s) => spec_string_field(*v, key@) == Some(s@),
            None => spec_string_field(*v, key@) is None,
        },
{
    match value_get_field(v, key) {
        Some(f) => value_as_str(f),
        None => None,
    }
}

/// Whether one entry of the release's asset array carries both required
/// string fields.
pub open spec fn spec_asset_ok(v: serde_json::Value) -> bool {
    spec_string_field(v, "name"@) is Some && spec_string_field(v, "browser_download_url"@)
        is Some
}

/// The asset entries of a release listing, when the listing parses and
/// holds an assets array.
pub open spec fn spec_release_assets(body: Seq<char>) -> Seq<serde_json::Value> {
    spec_array_of(spec_field_of(spec_json_of(body)->Some_0, "assets"@)->Some_0)->Some_0
}

/// Whether a release listing is structurally valid: it parses, carries a
/// nonempty string tag, and an assets array whose every entry carries the
/// two required string fields.
pub open spec fn spec_release_decodable(body: Seq<char>) -> bool {
    &&& spec_json_of(body) is Some
    &&& spec_string_field(spec_json_of(body)->Some_0, "tag_name"@) matches Some(tag)
        && tag.len() >= 1
    &&& spec_field_of(spec_json_of(body)->Some_0, "assets"@) matches Some(av) && spec_array_of(av)
        is Some
    &&& forall|i: int|
        0 <= i < spec_release_assets(body).len() ==> spec_asset_ok(
            #[trigger] spec_release_assets(body)[i],
        )
}

/// Decodes an upstream release listing: its tag and its assets, each with
/// name and download URL. Succeeds exactly on structurally valid listings,
/// and then returns exactly the listed tag and assets, in listing order;
/// fails with `ParseError` otherwise.
pub fn decode_release(body: &str) -> (r: Result<ReleaseDescriptor, Error>)
    ensures
        r is Ok <==> spec_release_decodable(body@),
        r matches Ok(d) ==> {
            &&& d.wf()
            &&& Some(d.version_tag@) == spec_string_field(
                spec_json_of(body@)->Some_0,
                "tag_name"@,
            )
            &&& d.assets@.len() == spec_release_assets(body@).len()
            &&& forall|i: int|
                0 <= i < d.assets@.len() ==> {
                    &&& Some(#[trigger] d.assets@[i].name@) == spec_string_field(
                        spec_release_assets(body@)[i],
                        "name"@,
                    )
                    &&& Some(d.assets@[i].url@) == spec_string_field(
                        spec_release_assets(body@)[i],
                        "browser_download_url"@,
                    )
                }
        },
        r matches Err(e) ==> e == Error::ParseError,
{
    let root = match parse_json(body) {
        Ok(v) => v,
        Err(e) => { return Err(e); },
    };
    let tag = match get_string_field(&root, "tag_name") {
        Some(t) => t,
        None => { return Err(Error::ParseError); },
    };
    if tag.as_str().unicode_len() == 0 {
        return Err(Error::ParseError);
    }
    let assets_field = match value_get_field(&root, "assets") {
        Some(a) => a,
        None => { return Err(Error::ParseError); },
    };
    let arr = match value_as_array(assets_field) {
        Some(a) => a,
        None => { return Err(Error::ParseError); },
    };
    proof {
        assert(spec_release_assets(body@) == arr@);
    }
    let mut assets: Vec<Asset> = Vec::new();
    let mut i: usize = 0;
    while i < arr.len()
        invariant
            i <= arr@.len(),
            assets@.len() == i as nat,
            spec_release_assets(body@) == arr@,
            forall|j: int|
                0 <= j < i ==> {
                    &&& Some(#[trigger] assets@[j].name@) == spec_string_field(
                        arr@[j],
                        "name"@,
                    )
                    &&& Some(assets@[j].url@) == spec_string_field(
                        arr@[j],
                        "browser_download_url"@,
                    )
                },
        decreases arr@.len() - i,
    {
        let name = match get_string_field(&arr[i], "name") {
            Some(n) => n,
            None => { return Err(Error::ParseError); },
        };
        let url = match get_string_field(&arr[i], "browser_download_url") {
            Some(u) => u,
            None => { return Err(Error::ParseError); },
        };
        let ghost n_done = assets@.len();
        let ghost name_chars = name@;
        let ghost url_chars = url@;
        assets.push(Asset { name, url });
        proof {
            assert(assets@[n_done as int].name@ == name_chars);
            assert(assets@[n_done as int].url@ == url_chars);
        }
        i = i + 1;
    }
    proof {
        assert forall|t: int| 0 <= t < spec_release_assets(body@).len() implies spec_asset_ok(
            #[trigger] spec_release_assets(body@)[t],
        ) by {
            assert(spec_release_assets(body@)[t] == arr@[t]);
            assert(Some(assets@[t].name@) == spec_string_field(arr@[t], "name"@));
            assert(Some(assets@[t].url@) == spec_string_field(arr@[t], "browser_download_url"@));
        }
        assert(spec_release_decodable(body@));
        assert forall|t: int| 0 <= t < assets@.len() implies Some(#[trigger] assets@[t].name@)
            == spec_string_field(spec_release_assets(body@)[t], "name"@) && Some(assets@[t].url@)
            == spec_string_field(spec_release_assets(body@)[t], "browser_download_url"@) by {
            assert(spec_release_assets(body@)[t] == arr@[t]);
        }
    }
    Ok(ReleaseDescriptor { version_tag: tag, assets })
}

/// The entries of the registry response's result array, when the response
/// parses and holds one.
pub open spec fn spec_registry_results(body: Seq<char>) -> Seq<serde_json::Value> {
    spec_array_of(spec_field_of(spec_json_of(body)->Some_0, "results"@)->Some_0)->Some_0
}

/// The raw version string of entry `i` of the registry response.
pub open spec fn spec_registry_raw_version(body: Seq<char>, i: int) -> Seq<char> {
    spec_string_field(spec_registry_results(body)[i], "Version"@)->Some_0
}

/// Entry `j` of the response carries a string version, and entry `j` of
/// the built list is its normalization.
spec fn registry_entry_ok(
    body: Seq<char>,
    arr: Seq<serde_json::Value>,
    versions: Seq<String>,
    j: int,
) -> bool {
    &&& spec_string_field(arr[j], "Version"@) is Some
    &&& versions[j]@ == spec_normalize_downstream(spec_registry_raw_version(body, j))
}

/// Whether a registry response answers a query for `count` packages: it
/// parses, carries a result array of at least `count` entries, and each of
/// the first `count` entries carries a string version.
pub open spec fn spec_registry_decodable(body: Seq<char>, count: int) -> bool {
    &&& spec_json_of(body) is Some
    &&& spec_field_of(spec_json_of(body)->Some_0, "results"@) matches Some(rv) && spec_array_of(
        rv,
    ) is Some
    &&& spec_registry_results(body).len() >= count
    &&& forall|i: int|
        0 <= i < count ==> spec_string_field(
            #[trigger] spec_registry_results(body)[i],
            "Version"@,
        ) is Some
}

/// Decodes the registry's version query response for `count` packages, in
/// response order, normalizing each version. Succeeds exactly when every
/// requested entry carries a version — a missing entry means that
/// package's comparison cannot be trusted — and then entry `i` of the
/// result is the normalized version of entry `i` of the response; fails
/// with `ParseError` otherwise.
pub fn decode_registry_versions(body: &str, count: usize) -> (r: Result<Vec<String>, Error>)
    ensures
        r is Ok <==> spec_registry_decodable(body@, count as int),
        r matches Ok(vs) ==> {
            &&& vs@.len() == count as nat
            &&& forall|i: int|
                0 <= i < count ==> #[trigger] vs@[i]@ == spec_normalize_downstream(
                    spec_registry_raw_version(body@, i),
                )
        },
        r matches Err(e) ==> e == Error::ParseError,
{
    let root = match parse_json(body) {
        Ok(v) => v,
        Err(e) => { return Err(e); },
    };
    let results = match value_get_field(&root, "results") {
        Some(v) => v,
        None => { return Err(Error::ParseError); },
    };
    let arr = match value_as_array(results) {
        Some(a) => a,
        None => { return Err(Error::ParseError); },
    };
    proof {
        assert(spec_registry_results(body@) == arr@);
    }
    if arr.len() < count {
        return Err(Error::ParseError);
    }
    let mut versions: Vec<String> = Vec::new();
    let mut i: usize = 0;
    while i < count
        invariant
            i <= count,
            count <= arr@.len(),
            versions@.len() == i as nat,
            spec_registry_results(body@) == arr@,
            forall|j: int| 0 <= j < i ==> #[trigger] registry_entry_ok(body@, arr@, versions@, j),
        decreases count - i,
    {
        let raw = match get_string_field(&arr[i], "Version") {
            Some(s) => s,
            None => { return Err(Error::ParseError); },
        };
        proof {
            assert(spec_registry_results(body@)[i as int] == arr@[i as int]);
            assert(spec_registry_raw_version(body@, i as int) == raw@);
        }
        let ghost n_done = versions@.len();
        let ghost raw_chars = raw@;
        let ghost pre = versions@;
        let normalized = normalize_downstream(raw.as_str());
        let ghost norm_chars = normalized@;
        versions.push(normalized);
        proof {
            assert(versions@ == pre.push(normalized));
            assert(versions@[n_done as int]@ == norm_chars);
            assert(norm_chars == spec_normalize_downstream(raw_chars));
            assert(spec_string_field(arr@[i as int], "Version"@) == Some(raw_chars));
            assert forall|j: int| 0 <= j < i + 1 implies #[trigger] registry_entry_ok(
                body@,
                arr@,
                versions@,
                j,
            ) by {
                if j < n_done {
                    assert(registry_entry_ok(body@, arr@, pre, j));
                    assert(versions@[j] == pre[j]);
                } else {
                    assert(j == n_done as int);
                    assert(versions@[j]@ == norm_chars);
                    assert(spec_registry_raw_version(body@, j) == raw_chars);
                }
            }
        }
        i = i + 1;
    }
    proof {
        assert forall|t: int| 0 <= t < count implies spec_string_field(
            #[trigger] spec_registry_results(body@)[t],
            "Version"@,
        ) is Some by {
            assert(registry_entry_ok(body@, arr@, versions@, t));
            assert(spec_registry_results(body@)[t] == arr@[t]);
        }
        assert(spec_registry_decodable(body@, count as int));
        assert forall|t: int| 0 <= t < count implies #[trigger] versions@[t]@
            == spec_normalize_downstream(spec_registry_raw_version(body@, t)) by {
            assert(registry_entry_ok(body@, arr@, versions@, t));
        }
    }
    Ok(versions)
}

} // verus!
