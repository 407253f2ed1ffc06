//! Release identities and asset descriptors, and how they are read from the
//! stable manifest and from the nightly reference file.
use vstd::prelude::*;
use crate::json::{
    nesting_ok, nesting_within_limit, JsonModel, json_model, parsed_json, string_field, parse_json, json_as_array, json_member,
    json_string_member,
};
use crate::text::{newline_from, line_from_spec, find_newline, line_from, lemma_newline_from_bounds};

verus! {

/// The one asset that a release is expected to carry.
pub const RELEASE_ASSET: &'static str = "dist.tar.gz";

/// Where the nightly archive is always fetched from.
pub const NIGHTLY_DOWNLOAD_URL: &'static str = "https://moonlight-mod.github.io/moonlight/dist.tar.gz";

/// Metadata of the latest stable release.
pub const RELEASE_URL: &'static str = "https://api.github.com/repos/moonlight-mod/moonlight/releases/latest";

/// Two-line reference file of the latest nightly build.
pub const NIGHTLY_REF_URL: &'static str = "https://moonlight-mod.github.io/moonlight/ref";

/// A remote release, identified by its tag and its name (compared exactly).
#[derive(Clone, Debug)]
pub struct ReleaseIdentity {
    pub tag_name: String,
    pub name: String,
}

impl View for ReleaseIdentity {
    type V = (Seq<char>, Seq<char>);

    open spec fn view(&self) -> (Seq<char>, Seq<char>) {
        (self.tag_name@, self.name@)
    }
}

impl ReleaseIdentity {
    /// Whether two identities name the same release.
    pub fn same_as(&self, other: &ReleaseIdentity) -> (r: bool)
        ensures
            r == (self@ == other@),
    {
        self.tag_name == other.tag_name && self.name == other.name
    }
}

/// A downloadable asset of a release.
#[derive(Clone, Debug)]
pub struct AssetDescriptor {
    pub name: String,
    pub browser_download_url: String,
}

impl View for AssetDescriptor {
    type V = (Seq<char>, Seq<char>);

    open spec fn view(&self) -> (Seq<char>, Seq<char>) {
        (self.name@, self.browser_download_url@)
    }
}

/// A resolved release: its identity and the assets to fetch for it.
#[derive(Clone, Debug)]
pub struct Release {
    pub identity: ReleaseIdentity,
    pub assets: Vec<AssetDescriptor>,
}

pub open spec fn assets_view(a: Seq<AssetDescriptor>) -> Seq<(Seq<char>, Seq<char>)> {
    a.map_values(|d: AssetDescriptor| d@)
}

impl View for Release {
    type V = ((Seq<char>, Seq<char>), Seq<(Seq<char>, Seq<char>)>);

    open spec fn view(&self) -> Self::V {
        (self.identity@, assets_view(self.assets@))
    }
}

/// Why a release could not be resolved.
#[derive(Clone, Copy, Debug, PartialEq, Eq, Structural)]
pub enum ResolverError {
    /// The request failed or answered with an error status.
    Request,
    /// The answer did not have the expected shape.
    Malformed,
}

/// Whether an asset name is on the allow-list.
pub open spec fn is_release_asset(name: Seq<char>) -> bool {
    name == RELEASE_ASSET@
}

pub fn is_wanted_asset(name: &String) -> (r: bool)
    ensures
        r == is_release_asset(name@),
{
    let wanted = String::from_str(RELEASE_ASSET);
    *name == wanted
}

/// The member of an object under a key.
pub open spec fn member(m: JsonModel, key: Seq<char>) -> Option<JsonModel> {
    match m {
        JsonModel::Object(o) => if o.contains_key(key) {
            Some(o[key])
        } else {
            None
        },
        _ => None,
    }
}

/// An asset entry of the manifest: an object with a string name and URL.
pub open spec fn manifest_asset(m: JsonModel) -> Option<(Seq<char>, Seq<char>)> {
    match (string_field(m, "name"@), string_field(m, "browser_download_url"@)) {
        (Some(n), Some(u)) => Some((n, u)),
        _ => None,
    }
}

/// The entries of the allow-list, in manifest order; other names are
/// ignored. None when any entry is not an object with a string name and URL.
pub open spec fn kept_assets(items: Seq<JsonModel>) -> Option<Seq<(Seq<char>, Seq<char>)>>
    decreases items.len(),
{
    if items.len() == 0 {
        Some(seq![])
    } else {
        match (kept_assets(items.drop_last()), manifest_asset(items.last())) {
            (Some(rest), Some(a)) => if is_release_asset(a.0) {
                Some(rest.push(a))
            } else {
                Some(rest)
            },
            _ => None,
        }
    }
}

/// Once a prefix of the entries is malformed, so is the whole list.
proof fn lemma_kept_assets_stays_none(items: Seq<JsonModel>, k: int)
    requires
        0 <= k <= items.len(),
        kept_assets(items.subrange(0, k)) is None,
    ensures
        kept_assets(items) is None,
    decreases items.len() - k,
{
    if k < items.len() {
        assert(items.subrange(0, k + 1).drop_last() =~= items.subrange(0, k));
        lemma_kept_assets_stays_none(items, k + 1);
    } else {
        assert(items.subrange(0, k) =~= items);
    }
}

/// The release that a stable manifest describes, if it has the expected shape.
pub open spec fn manifest_release(m: JsonModel) -> Option<
    ((Seq<char>, Seq<char>), Seq<(Seq<char>, Seq<char>)>),
> {
    match (string_field(m, "tag_name"@), string_field(m, "name"@), member(m, "assets"@)) {
        (Some(t), Some(n), Some(JsonModel::Array(items))) => match kept_assets(items) {
            Some(assets) => Some(((t, n), assets)),
            None => None,
        },
        _ => None,
    }
}

/// Reads a release out of a parsed stable manifest.
pub fn release_from_manifest(v: &tinyjson::JsonValue) -> (r: Result<Release, ResolverError>)
    ensures
        match manifest_release(json_model(*v)) {
            Some(rv) => r matches Ok(rel) && rel@ == rv,
            None => r == Err::<Release, ResolverError>(ResolverError::Malformed),
        },
{
    let tag_name = match json_string_member(v, "tag_name") {
        Some(t) => t,
        None => return Err(ResolverError::Malformed),
    };
    let name = match json_string_member(v, "name") {
        Some(n) => n,
        None => return Err(ResolverError::Malformed),
    };
    let list = match json_member(v, "assets") {
        Some(l) => l,
        None => return Err(ResolverError::Malformed),
    };
    let items = match json_as_array(&list) {
        Some(a) => a,
        None => return Err(ResolverError::Malformed),
    };
    let ghost model_items = match json_model(list) {
        JsonModel::Array(s) => s,
        _ => Seq::empty(),
    };
    let mut assets: Vec<AssetDescriptor> = Vec::new();
    let mut i: usize = 0;
    while i < items.len()
        invariant
            items@.len() == model_items.len(),
            member(json_model(*v), "assets"@) == Some(JsonModel::Array(model_items)),
            forall|j: int| 0 <= j < model_items.len() ==> json_model(#[trigger] items@[j]) == model_items[j],
            i <= items@.len(),
            kept_assets(model_items.subrange(0, i as int)) == Some(assets_view(assets@)),
        decreases items.len() - i,
    {
        let item = &items[i];
        proof {
            assert(model_items.subrange(0, i + 1).drop_last() =~= model_items.subrange(0, i as int));
            assert(model_items.subrange(0, i + 1).last() == json_model(*item));
        }
        let asset_name = json_string_member(item, "name");
        let url = json_string_member(item, "browser_download_url");
        match (asset_name, url) {
            (Some(n), Some(u)) => {
                if is_wanted_asset(&n) {
                    let d = AssetDescriptor { name: n, browser_download_url: u };
                    let ghost before = assets@;
                    assets.push(d);
                    proof {
                        assert(assets_view(assets@) =~= assets_view(before).push(d@));
                    }
                }
            },
            _ => {
                proof {
                    assert(manifest_asset(json_model(*item)) is None);
                    assert(kept_assets(model_items.subrange(0, i + 1)) is None);
                    lemma_kept_assets_stays_none(model_items, i + 1);
                }
                return Err(ResolverError::Malformed);
            },
        }
        i = i + 1;
    }
    assert(model_items.subrange(0, items@.len() as int) =~= model_items);
    Ok(Release { identity: ReleaseIdentity { tag_name, name }, assets })
}

/// Resolves a stable release from the body of the manifest endpoint. A body
/// nested too deeply to parse is malformed.
pub fn parse_stable_release(body: &str) -> (r: Result<Release, ResolverError>)
    ensures
        !nesting_ok(body@) ==> r == Err::<Release, ResolverError>(ResolverError::Malformed),
        nesting_ok(body@) ==> match parsed_json(body@) {
            Some(m) => match manifest_release(m) {
                Some(rv) => r matches Ok(rel) && rel@ == rv,
                None => r == Err::<Release, ResolverError>(ResolverError::Malformed),
            },
            None => r == Err::<Release, ResolverError>(ResolverError::Malformed),
        },
{
    if !nesting_within_limit(body) {
        return Err(ResolverError::Malformed);
    }
    match parse_json(body) {
        Some(v) => release_from_manifest(&v),
        None => Err(ResolverError::Malformed),
    }
}

/// The identity in a nightly reference file: its first line is the build
/// identifier, its second the ref name; both must be there.
pub open spec fn nightly_identity(body: Seq<char>) -> Option<(Seq<char>, Seq<char>)> {
    let p = newline_from(body, 0);
    if p + 1 >= body.len() {
        None
    } else {
        Some((line_from_spec(body, 0), line_from_spec(body, p + 1)))
    }
}

/// The one asset of every nightly build.
pub open spec fn nightly_asset() -> (Seq<char>, Seq<char>) {
    (RELEASE_ASSET@, NIGHTLY_DOWNLOAD_URL@)
}

/// Resolves a nightly release from the body of the reference file.
pub fn parse_nightly_release(body: &str) -> (r: Result<Release, ResolverError>)
    ensures
        match nightly_identity(body@) {
            Some(id) => r matches Ok(rel) && rel@ == (id, seq![nightly_asset()]),
            None => r == Err::<Release, ResolverError>(ResolverError::Malformed),
        },
{
    let n = body.unicode_len();
    let p = find_newline(body, 0);
    proof {
        lemma_newline_from_bounds(body@, 0);
    }
    if p >= n || p + 1 >= n {
        return Err(ResolverError::Malformed);
    }
    let build = line_from(body, 0);
    let tag = line_from(body, p + 1);
    let asset = AssetDescriptor {
        name: String::from_str(RELEASE_ASSET),
        browser_download_url: String::from_str(NIGHTLY_DOWNLOAD_URL),
    };
    let assets = vec![asset];
    assert(assets_view(assets@) =~= seq![nightly_asset()]);
    Ok(Release { identity: ReleaseIdentity { tag_name: build, name: tag }, assets })
}

/// Every asset kept from a manifest is on the allow-list; entries with other
/// names are ignored.
pub proof fn lemma_only_allowed_assets(m: JsonModel)
    ensures
        manifest_release(m) matches Some(rv) ==> forall|i: int|
            0 <= i < rv.1.len() ==> is_release_asset(#[trigger] rv.1[i].0),
{
    if let JsonModel::Object(o) = m {
        if o.contains_key("assets"@) {
            if let JsonModel::Array(items) = o["assets"@] {
                lemma_kept_assets_allowed(items);
            }
        }
    }
}

proof fn lemma_kept_assets_allowed(items: Seq<JsonModel>)
    ensures
        kept_assets(items) matches Some(kept) ==> forall|i: int|
            0 <= i < kept.len() ==> is_release_asset(#[trigger] kept[i].0),
    decreases items.len(),
{
    if items.len() > 0 {
        lemma_kept_assets_allowed(items.drop_last());
        if let Some(kept) = kept_assets(items) {
            let rest = kept_assets(items.drop_last())->0;
            assert forall|i: int| 0 <= i < kept.len() implies is_release_asset(
                #[trigger] kept[i].0,
            ) by {
                if i < rest.len() {
                    assert(kept[i] == rest[i]);
                }
            }
        }
    }
}

} // verus!
