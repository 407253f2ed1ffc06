//! Decisions of the asset synchronization: whether a release must be fetched,
//! what is done with each fetched asset, and when the version record advances.
use vstd::prelude::*;
use crate::release::{AssetDescriptor, Release, ReleaseIdentity, ResolverError, assets_view};
use crate::json::parsed_json;
use crate::record::{record_text, render_record, read_cached, read_record_spec};
use crate::text::ends_with;

verus! {

/// Name suffix of the archives that are unpacked into the cache directory.
pub const ARCHIVE_SUFFIX: &'static str = ".tar.gz";

/// What synchronization does for a resolved release.
#[derive(Debug)]
pub enum SyncPlan {
    /// The cached assets already belong to this release: nothing is fetched
    /// and the record is left untouched.
    UpToDate,
    /// Fetch these assets, one task each.
    Download(Vec<AssetDescriptor>),
}

/// The assets to fetch, or none when the cached identity is the resolved one.
pub open spec fn plan_spec(
    cached: Option<(Seq<char>, Seq<char>)>,
    latest: ((Seq<char>, Seq<char>), Seq<(Seq<char>, Seq<char>)>),
) -> Option<Seq<(Seq<char>, Seq<char>)>> {
    if cached == Some(latest.0) {
        None
    } else {
        Some(latest.1)
    }
}

impl View for SyncPlan {
    type V = Option<Seq<(Seq<char>, Seq<char>)>>;

    open spec fn view(&self) -> Self::V {
        match self {
            SyncPlan::UpToDate => None,
            SyncPlan::Download(a) => Some(assets_view(a@)),
        }
    }
}

/// Compares the cached identity with the resolved release.
pub fn plan_sync(cached: &Option<ReleaseIdentity>, latest: Release) -> (r: SyncPlan)
    ensures
        r@ == plan_spec(
            match cached {
                Some(c) => Some(c@),
                None => None,
            },
            latest@,
        ),
{
    match cached {
        Some(c) => {
            if c.same_as(&latest.identity) {
                return SyncPlan::UpToDate;
            }
        },
        None => {},
    }
    SyncPlan::Download(latest.assets)
}

/// What is done with the body of a fetched asset.
#[derive(Clone, Debug, PartialEq, Eq)]
pub enum AssetTarget {
    /// Decompress and unpack it into the cache directory.
    Unpack,
    /// Write it verbatim under this file name in the cache directory.
    Write(String),
}

/// Archives are unpacked; any other asset is written under its own name.
pub open spec fn is_archive(name: Seq<char>) -> bool {
    ARCHIVE_SUFFIX@.len() <= name.len() && name.subrange(
        name.len() - ARCHIVE_SUFFIX@.len(),
        name.len() as int,
    ) == ARCHIVE_SUFFIX@
}

pub fn asset_target(name: &str) -> (r: AssetTarget)
    ensures
        is_archive(name@) ==> r is Unpack,
        !is_archive(name@) ==> (r matches AssetTarget::Write(f) && f@ == name@),
{
    if ends_with(name, ARCHIVE_SUFFIX) {
        AssetTarget::Unpack
    } else {
        AssetTarget::Write(String::from_str(name))
    }
}

/// Why fetching or storing one asset failed.
#[derive(Clone, Copy, Debug, PartialEq, Eq, Structural)]
pub enum DownloadError {
    /// The request failed or its body could not be read.
    Request,
    /// The archive could not be decompressed or unpacked.
    Unpack,
    /// The asset could not be written.
    Write,
}

/// Why a synchronization did not complete.
#[derive(Clone, Copy, Debug, PartialEq, Eq, Structural)]
pub enum SyncError {
    Resolve(ResolverError),
    Download(DownloadError),
    /// The version record could not be written.
    Record,
}

/// The first failure among the outcomes of the download tasks.
pub open spec fn first_failure(outcomes: Seq<Result<(), DownloadError>>) -> Option<DownloadError>
    decreases outcomes.len(),
{
    if outcomes.len() == 0 {
        None
    } else {
        match outcomes[0] {
            Err(e) => Some(e),
            Ok(_) => first_failure(outcomes.drop_first()),
        }
    }
}

pub proof fn lemma_first_failure_none(outcomes: Seq<Result<(), DownloadError>>)
    ensures
        first_failure(outcomes) is None <==> forall|i: int|
            0 <= i < outcomes.len() ==> #[trigger] outcomes[i] is Ok,
    decreases outcomes.len(),
{
    if outcomes.len() > 0 {
        let rest = outcomes.drop_first();
        lemma_first_failure_none(rest);
        if first_failure(outcomes) is None {
            assert forall|i: int| 0 <= i < outcomes.len() implies #[trigger] outcomes[i] is Ok by {
                if i > 0 {
                    assert(outcomes[i] == rest[i - 1]);
                }
            }
        }
        if forall|i: int| 0 <= i < outcomes.len() ==> #[trigger] outcomes[i] is Ok {
            assert forall|j: int| 0 <= j < rest.len() implies #[trigger] rest[j] is Ok by {
                assert(rest[j] == outcomes[j + 1]);
            }
        }
    }
}

/// The result of a synchronization once its download tasks have finished.
pub open spec fn finish_spec(
    latest: (Seq<char>, Seq<char>),
    outcomes: Seq<Result<(), DownloadError>>,
) -> Result<Seq<char>, SyncError> {
    match first_failure(outcomes) {
        None => Ok(record_text(latest)),
        Some(e) => Err(SyncError::Download(e)),
    }
}

/// Once every download task has finished: the text of the new version record
/// if all of them succeeded, else the first failure, and the record stays as it was.
pub fn finish_sync(latest: &ReleaseIdentity, outcomes: &Vec<Result<(), DownloadError>>) -> (r:
    Result<String, SyncError>)
    ensures
        match r {
            Ok(t) => finish_spec(latest@, outcomes@) == Ok::<Seq<char>, SyncError>(t@),
            Err(e) => finish_spec(latest@, outcomes@) == Err::<Seq<char>, SyncError>(e),
        },
{
    let mut i: usize = 0;
    assert(outcomes@.subrange(0, outcomes@.len() as int) =~= outcomes@);
    while i < outcomes.len()
        invariant
            i <= outcomes@.len(),
            first_failure(outcomes@) == first_failure(outcomes@.subrange(i as int, outcomes@.len() as int)),
        decreases outcomes.len() - i,
    {
        let ghost rest = outcomes@.subrange(i as int, outcomes@.len() as int);
        assert(rest.drop_first() =~= outcomes@.subrange(i + 1, outcomes@.len() as int));
        match outcomes[i] {
            Err(e) => return Err(SyncError::Download(e)),
            Ok(_) => {},
        }
        i = i + 1;
    }
    Ok(render_record(latest))
}

/// The identity cached in a record file, if the file exists.
pub open spec fn cached_spec(record: Option<Seq<char>>) -> Option<(Seq<char>, Seq<char>)> {
    match record {
        Some(text) => read_record_spec(text),
        None => None,
    }
}

/// Reads the cached identity from the record file's text, if the file exists,
/// and compares it with the resolved release.
pub fn plan_update(record: &Option<String>, latest: Release) -> (r: SyncPlan)
    ensures
        r@ == plan_spec(
            cached_spec(
                match record {
                    Some(t) => Some(t@),
                    None => None,
                },
            ),
            latest@,
        ),
{
    let cached = read_cached(record);
    plan_sync(&cached, latest)
}

/// When the record holds the identity that the resolver returns, nothing is
/// fetched and the record is not written.
pub proof fn lemma_unchanged_release_is_noop(
    record: Seq<char>,
    latest: ((Seq<char>, Seq<char>), Seq<(Seq<char>, Seq<char>)>),
)
    requires
        read_record_spec(record) == Some(latest.0),
    ensures
        plan_spec(cached_spec(Some(record)), latest) is None,
{
}

/// A record that is not JSON counts as no cached version: every asset of the
/// resolved release is fetched, and once all of them are stored the record is
/// replaced by the well-formed text for the new identity.
pub proof fn lemma_corrupt_record_is_replaced(
    record: Seq<char>,
    latest: ((Seq<char>, Seq<char>), Seq<(Seq<char>, Seq<char>)>),
    outcomes: Seq<Result<(), DownloadError>>,
)
    requires
        parsed_json(record) is None,
        forall|i: int| 0 <= i < outcomes.len() ==> #[trigger] outcomes[i] is Ok,
    ensures
        cached_spec(Some(record)) is None,
        plan_spec(cached_spec(Some(record)), latest) == Some(latest.1),
        finish_spec(latest.0, outcomes) == Ok::<Seq<char>, SyncError>(record_text(latest.0)),
{
    lemma_first_failure_none(outcomes);
}

/// When any download task fails, the record is not advanced, whatever the
/// other tasks did.
pub proof fn lemma_failed_download_keeps_record(
    latest: (Seq<char>, Seq<char>),
    outcomes: Seq<Result<(), DownloadError>>,
    failed: int,
)
    requires
        0 <= failed < outcomes.len(),
        outcomes[failed] is Err,
    ensures
        finish_spec(latest, outcomes) is Err,
{
    lemma_first_failure_none(outcomes);
}

} // verus!
