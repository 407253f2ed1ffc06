use moonlight_launcher::record::render_record;
use moonlight_launcher::release::{AssetDescriptor, Release, ReleaseIdentity};
use moonlight_launcher::sync::{
    asset_target, finish_sync, plan_sync, plan_update, AssetTarget, DownloadError, SyncError,
    SyncPlan,
};

fn release(tag: &str, name: &str, assets: &[&str]) -> Release {
    Release {
        identity: ReleaseIdentity { tag_name: tag.to_string(), name: name.to_string() },
        assets: assets
            .iter()
            .map(|a| AssetDescriptor {
                name: a.to_string(),
                browser_download_url: format!("https://example.com/{a}"),
            })
            .collect(),
    }
}

#[test]
fn unchanged_release_fetches_nothing() {
    let latest = release("v1", "one", &["dist.tar.gz"]);
    let record = Some(render_record(&latest.identity));
    assert!(matches!(plan_update(&record, latest), SyncPlan::UpToDate));
}

#[test]
fn changed_release_fetches_every_asset() {
    let cached = release("v1", "one", &[]);
    let record = Some(render_record(&cached.identity));
    let latest = release("v1", "two", &["dist.tar.gz", "other.bin"]);
    match plan_update(&record, latest) {
        SyncPlan::Download(assets) => {
            assert_eq!(assets.len(), 2);
            assert_eq!(assets[0].name, "dist.tar.gz");
            assert_eq!(assets[1].name, "other.bin");
        }
        SyncPlan::UpToDate => panic!("expected a download"),
    }
}

#[test]
fn missing_or_corrupt_record_fetches() {
    let latest = release("v1", "one", &["dist.tar.gz"]);
    assert!(matches!(plan_update(&None, latest.clone()), SyncPlan::Download(_)));
    let corrupt = Some("{{{ garbage".to_string());
    assert!(matches!(plan_update(&corrupt, latest.clone()), SyncPlan::Download(_)));
    let text = finish_sync(&latest.identity, &vec![Ok(())]).unwrap();
    assert_eq!(text, "{\n  \"tag_name\": \"v1\",\n  \"name\": \"one\"\n}");
    let cached = moonlight_launcher::record::read_cached(&Some(text)).unwrap();
    assert!(cached.same_as(&latest.identity));
}

#[test]
fn plan_compares_both_fields() {
    let cached = Some(ReleaseIdentity { tag_name: "v2".to_string(), name: "one".to_string() });
    assert!(matches!(plan_sync(&cached, release("v1", "one", &[])), SyncPlan::Download(_)));
    assert!(matches!(plan_sync(&cached, release("v2", "one", &[])), SyncPlan::UpToDate));
}

#[test]
fn archives_are_unpacked_other_assets_written() {
    assert_eq!(asset_target("dist.tar.gz"), AssetTarget::Unpack);
    assert_eq!(asset_target("unrelated.exe"), AssetTarget::Write("unrelated.exe".to_string()));
    assert_eq!(asset_target("tar.gz"), AssetTarget::Write("tar.gz".to_string()));
    assert_eq!(asset_target(".tar.gz"), AssetTarget::Unpack);
}

#[test]
fn all_downloads_succeeding_advances_the_record() {
    let id = ReleaseIdentity { tag_name: "v3".to_string(), name: "three".to_string() };
    let text = finish_sync(&id, &vec![Ok(()), Ok(())]).unwrap();
    assert_eq!(text, render_record(&id));
    assert_eq!(finish_sync(&id, &vec![]).unwrap(), render_record(&id));
}

#[test]
fn one_failed_download_keeps_the_record() {
    let id = ReleaseIdentity { tag_name: "v3".to_string(), name: "three".to_string() };
    let outcomes = vec![Ok(()), Err(DownloadError::Request)];
    assert_eq!(finish_sync(&id, &outcomes), Err(SyncError::Download(DownloadError::Request)));
    let outcomes = vec![Err(DownloadError::Unpack), Err(DownloadError::Write)];
    assert_eq!(finish_sync(&id, &outcomes), Err(SyncError::Download(DownloadError::Unpack)));
}
