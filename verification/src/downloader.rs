//! Deciding what the launcher downloads for a game version: the asset index
//! file, which asset objects are missing, where they come from and go, and
//! which entries of the client JAR are extracted. The transfers themselves
//! are left to the caller.
use vstd::prelude::*;

use crate::crypto::{sha1_hex, sha1_hex_of};
use crate::storage::{is_join, join_path, lemma_join_ordinary, ordinary, plain_component};
use crate::text::{decimal, decimal_string, same_text, starts_with_text};

verus! {

use vstd::string::StringExecFns;
use vstd::string::StringSliceAdditionalSpecFns;
use vstd::utf8::{decode_utf8, encode_utf8, encode_utf8_decode_utf8, is_char_boundary};

/// Where the game's version manifest is published.
pub const VERSION_MANIFEST_URL: &'static str = "https://piston-meta.mojang.com/mc/game/version_manifest_v2.json";

/// Where asset objects are downloaded from.
pub const RESOURCES_BASE_URL: &'static str = "https://resources.download.minecraft.net";

/// Progress reported to the launcher window.
pub struct DownloadProgress {
    pub downloaded: u32,
    pub total: u32,
    pub status: String,
}

/// An asset object named by an asset index.
pub struct AssetObject {
    pub hash: String,
    pub size: u64,
}

/// One version listed by the version manifest.
pub struct VersionEntry {
    pub id: String,
    pub url: String,
}

/// An asset object that has to be downloaded.
pub struct PlannedDownload {
    pub hash: String,
    pub url: String,
    pub size: u64,
}

/// A version needs downloading unless both its asset index and its extracted
/// client assets are present.
pub fn needs_download(index_present: bool, extracted: bool) -> (r: bool)
    ensures
        r == (!index_present || !extracted),
{
    !index_present || !extracted
}

/// The name of a version's asset index file.
pub fn index_file_name(version: &str) -> (r: String)
    ensures
        r@ == version@ + ".json"@,
{
    let mut r = String::from_str(version);
    r.append(".json");
    r
}

/// The path of a version's asset index file inside the indexes directory.
pub fn index_path(indexes_dir: &str, version: &str) -> (r: String)
    ensures
        ordinary(indexes_dir@) && plain_component(version@ + ".json"@) ==> is_join(
            indexes_dir@,
            version@ + ".json"@,
            r@,
        ),
{
    let name = index_file_name(version);
    join_path(indexes_dir, name.as_str())
}

/// The characters of the first two bytes of a hash's UTF-8 text.
pub open spec fn prefix_text(hash: Seq<char>) -> Seq<char> {
    decode_utf8(encode_utf8(hash).subrange(0, 2))
}

/// The directory an object is stored under: the first two bytes of its hash.
pub fn object_prefix(hash: &str) -> (p: &str)
    requires
        is_char_boundary(hash.spec_bytes(), 2),
    ensures
        p@ == prefix_text(hash@),
{
    let (p, _) = hash.split_at(2);
    proof {
        encode_utf8_decode_utf8(p@);
    }
    p
}

/// The address an object is downloaded from.
pub fn object_url(hash: &str) -> (u: String)
    requires
        is_char_boundary(hash.spec_bytes(), 2),
    ensures
        u@ == RESOURCES_BASE_URL@ + "/"@ + prefix_text(hash@) + "/"@ + hash@,
{
    let p = object_prefix(hash);
    let mut u = String::from_str(RESOURCES_BASE_URL);
    u.append("/");
    u.append(p);
    u.append("/");
    u.append(hash);
    u
}

/// Where an object is stored inside the objects directory: under its prefix, named by its hash.
pub fn object_path(objects_dir: &str, hash: &str) -> (r: String)
    requires
        is_char_boundary(hash.spec_bytes(), 2),
    ensures
        ordinary(objects_dir@) && plain_component(prefix_text(hash@)) && plain_component(hash@)
            ==> exists|d: Seq<char>|
            #[trigger] is_join(objects_dir@, prefix_text(hash@), d) && is_join(d, hash@, r@),
{
    let p = object_prefix(hash);
    let d = join_path(objects_dir, p);
    let r = join_path(d.as_str(), hash);
    proof {
        if ordinary(objects_dir@) && plain_component(prefix_text(hash@)) && plain_component(hash@) {
            lemma_join_ordinary(objects_dir@, prefix_text(hash@), d@);
            assert(is_join(objects_dir@, prefix_text(hash@), d@) && is_join(d@, hash@, r@));
        }
    }
    r
}

/// An object is already present when a file of the right size is at its path.
pub open spec fn already_present(obj: AssetObject, on_disk: Option<u64>) -> bool {
    on_disk == Some(obj.size)
}

/// The objects that are not already present, in order.
pub open spec fn missing(objs: Seq<AssetObject>, on_disk: Seq<Option<u64>>) -> Seq<AssetObject>
    decreases objs.len(),
{
    if objs.len() == 0 || on_disk.len() == 0 {
        Seq::empty()
    } else {
        let rest = missing(objs.drop_last(), on_disk.drop_last());
        if already_present(objs.last(), on_disk.last()) {
            rest
        } else {
            rest.push(objs.last())
        }
    }
}

/// The total size of some objects.
pub open spec fn total_size(objs: Seq<AssetObject>) -> int
    decreases objs.len(),
{
    if objs.len() == 0 {
        0
    } else {
        total_size(objs.drop_last()) + objs.last().size
    }
}

/// Whether every hash has a character boundary after its second byte.
pub open spec fn hashes_sliceable(objs: Seq<AssetObject>) -> bool {
    forall|i: int| 0 <= i < objs.len() ==> is_char_boundary(encode_utf8(#[trigger] objs[i].hash@), 2)
}

proof fn lemma_total_size_prefix(objs: Seq<AssetObject>, on_disk: Seq<Option<u64>>, k: int)
    requires
        objs.len() == on_disk.len(),
        0 <= k <= objs.len(),
    ensures
        total_size(missing(objs.take(k), on_disk.take(k))) <= total_size(missing(objs, on_disk)),
    decreases objs.len() - k,
{
    if k < objs.len() {
        lemma_total_size_prefix(objs, on_disk, k + 1);
        assert(objs.take(k + 1).drop_last() =~= objs.take(k));
        assert(on_disk.take(k + 1).drop_last() =~= on_disk.take(k));
        let m = missing(objs.take(k), on_disk.take(k));
        if !already_present(objs[k], on_disk[k]) {
            assert(missing(objs.take(k + 1), on_disk.take(k + 1)) == m.push(objs[k]));
            assert(m.push(objs[k]).drop_last() =~= m);
        }
    } else {
        assert(objs.take(k) =~= objs);
        assert(on_disk.take(k) =~= on_disk);
    }
}

/// The objects to download, given for each object the size of the file
/// already at its path (`None` when there is none), and their total size.
pub fn plan_downloads(objects: &Vec<AssetObject>, on_disk: &Vec<Option<u64>>) -> (r: (Vec<PlannedDownload>, u64))
    requires
        objects@.len() == on_disk@.len(),
        hashes_sliceable(objects@),
        total_size(missing(objects@, on_disk@)) <= u64::MAX,
    ensures
        r.0@.len() == missing(objects@, on_disk@).len(),
        forall|i: int| 0 <= i < r.0@.len() ==> {
            &&& (#[trigger] r.0@[i]).hash == missing(objects@, on_disk@)[i].hash
            &&& r.0@[i].size == missing(objects@, on_disk@)[i].size
            &&& r.0@[i].url@ == RESOURCES_BASE_URL@ + "/"@ + prefix_text(r.0@[i].hash@) + "/"@ + r.0@[i].hash@
        },
        r.1 == total_size(missing(objects@, on_disk@)),
{
    let mut plan: Vec<PlannedDownload> = Vec::new();
    let mut total: u64 = 0;
    let mut i: usize = 0;
    while i < objects.len()
        invariant
            i <= objects.len(),
            objects@.len() == on_disk@.len(),
            hashes_sliceable(objects@),
            total_size(missing(objects@, on_disk@)) <= u64::MAX,
            plan@.len() == missing(objects@.take(i as int), on_disk@.take(i as int)).len(),
            forall|j: int| 0 <= j < plan@.len() ==> {
                &&& (#[trigger] plan@[j]).hash == missing(objects@.take(i as int), on_disk@.take(i as int))[j].hash
                &&& plan@[j].size == missing(objects@.take(i as int), on_disk@.take(i as int))[j].size
                &&& plan@[j].url@ == RESOURCES_BASE_URL@ + "/"@ + prefix_text(plan@[j].hash@) + "/"@ + plan@[j].hash@
            },
            total == total_size(missing(objects@.take(i as int), on_disk@.take(i as int))),
        decreases objects.len() - i,
    {
        let ghost before = missing(objects@.take(i as int), on_disk@.take(i as int));
        proof {
            assert(objects@.take(i + 1).drop_last() =~= objects@.take(i as int));
            assert(on_disk@.take(i + 1).drop_last() =~= on_disk@.take(i as int));
            assert(objects@.take(i + 1).last() == objects@[i as int]);
            assert(on_disk@.take(i + 1).last() == on_disk@[i as int]);
            lemma_total_size_prefix(objects@, on_disk@, i + 1);
        }
        let obj = &objects[i];
        let present = match on_disk[i] {
            Some(len) => len == obj.size,
            None => false,
        };
        let ghost m = missing(objects@.take(i as int), on_disk@.take(i as int));
        if !present {
            assert(missing(objects@.take(i + 1), on_disk@.take(i + 1)) == m.push(objects@[i as int]));
            assert(m.push(objects@[i as int]).drop_last() =~= m);
            assert(is_char_boundary(encode_utf8(objects@[i as int].hash@), 2));
            let url = object_url(obj.hash.as_str());
            let ghost old_plan = plan@;
            plan.push(PlannedDownload { hash: obj.hash.clone(), url, size: obj.size });
            total = total + obj.size;
            assert forall|j: int| 0 <= j < plan@.len() implies {
                &&& (#[trigger] plan@[j]).hash == missing(objects@.take(i + 1), on_disk@.take(i + 1))[j].hash
                &&& plan@[j].size == missing(objects@.take(i + 1), on_disk@.take(i + 1))[j].size
                &&& plan@[j].url@ == RESOURCES_BASE_URL@ + "/"@ + prefix_text(plan@[j].hash@) + "/"@ + plan@[j].hash@
            } by {
                if j < old_plan.len() {
                    assert(plan@[j] == old_plan[j]);
                }
            }
        } else {
            assert(missing(objects@.take(i + 1), on_disk@.take(i + 1)) == m);
        }
        i = i + 1;
    }
    assert(objects@.take(objects.len() as int) =~= objects@);
    assert(on_disk@.take(on_disk.len() as int) =~= on_disk@);
    (plan, total)
}

/// The sizes found on disk once every object has been downloaded in full.
pub open spec fn sizes_of(objs: Seq<AssetObject>) -> Seq<Option<u64>> {
    objs.map_values(|o: AssetObject| Some(o.size))
}

/// Once every object is on disk with its size, nothing is left to download.
pub proof fn law_nothing_missing_after_download(objs: Seq<AssetObject>)
    ensures
        missing(objs, sizes_of(objs)) == Seq::<AssetObject>::empty(),
        total_size(missing(objs, sizes_of(objs))) == 0,
    decreases objs.len(),
{
    if objs.len() > 0 {
        assert(sizes_of(objs).drop_last() =~= sizes_of(objs.drop_last()));
        law_nothing_missing_after_download(objs.drop_last());
    }
}

/// Objects missing from disk are all planned: an object is left out of the
/// plan only when a file of its size is already there.
pub proof fn law_missing_objects_are_planned(objs: Seq<AssetObject>, on_disk: Seq<Option<u64>>, i: int)
    requires
        objs.len() == on_disk.len(),
        0 <= i < objs.len(),
        !already_present(objs[i], on_disk[i]),
    ensures
        missing(objs, on_disk).contains(objs[i]),
    decreases objs.len(),
{
    let p = objs.drop_last();
    let q = on_disk.drop_last();
    if i < objs.len() - 1 {
        law_missing_objects_are_planned(p, q, i);
        let m = missing(p, q);
        let k = choose|k: int| 0 <= k < m.len() && m[k] == p[i];
        if !already_present(objs.last(), on_disk.last()) {
            assert(m.push(objs.last())[k] == objs[i]);
        }
    } else {
        let m = missing(p, q);
        assert(m.push(objs.last())[m.len() as int] == objs[i]);
    }
}

/// Whether an entry of the client JAR is extracted: files under `assets/` only.
pub fn should_extract(name: &str, is_dir: bool) -> (r: bool)
    ensures
        r == (!is_dir && "assets/"@.len() <= name@.len() && name@.take("assets/"@.len() as int) == "assets/"@),
{
    starts_with_text(name, "assets/") && !is_dir
}

/// Whether downloaded bytes have the expected SHA-1 hash, given as lower-case hex.
pub fn hash_matches(bytes: &[u8], expected: &str) -> (r: bool)
    ensures
        r == (sha1_hex(bytes@) == expected@),
{
    let actual = sha1_hex_of(bytes);
    same_text(actual.as_str(), expected)
}

/// The position of the manifest entry for a version, if listed.
pub fn find_version(versions: &Vec<VersionEntry>, version: &str) -> (r: Option<usize>)
    ensures
        r matches Some(k) ==> k < versions@.len() && versions@[k as int].id@ == version@
            && forall|j: int| 0 <= j < k ==> versions@[j].id@ != version@,
        r is None ==> forall|j: int| 0 <= j < versions@.len() ==> versions@[j].id@ != version@,
{
    let mut i: usize = 0;
    while i < versions.len()
        invariant
            i <= versions.len(),
            forall|j: int| 0 <= j < i ==> versions@[j].id@ != version@,
        decreases versions.len() - i,
    {
        if same_text(versions[i].id.as_str(), version) {
            return Some(i);
        }
        i = i + 1;
    }
    None
}

/// The error reported for a version the manifest does not list.
pub fn version_not_found(version: &str) -> (e: String)
    ensures
        e@ == "Version "@ + version@ + " not found"@,
{
    let mut e = String::from_str("Version ");
    e.append(version);
    e.append(" not found");
    e
}

/// The progress text while the client JAR is extracted.
pub fn extract_status(extracted: u32, total: u32) -> (s: String)
    ensures
        s@ == "Extracting client JAR ("@ + decimal(extracted as nat) + "/"@ + decimal(total as nat) + ")"@,
{
    let mut s = String::from_str("Extracting client JAR (");
    let a = decimal_string(extracted as u64);
    s.append(a.as_str());
    s.append("/");
    let b = decimal_string(total as u64);
    s.append(b.as_str());
    s.append(")");
    s
}

/// How one download attempt went: the request could not be sent, the body
/// could not be read, or the bytes came.
#[derive(PartialEq, Eq, Structural, Clone, Copy, Debug)]
pub enum AttemptResult {
    SendFailed,
    BodyFailed,
    Received,
}

/// What the downloader does after an attempt.
#[derive(PartialEq, Eq, Structural, Clone, Copy, Debug)]
pub enum RetryAction {
    /// Make the next attempt.
    Retry,
    /// Hand back the bytes received.
    Succeed,
    /// Give up with the error of this attempt.
    Fail,
}

/// The decision after attempt number `attempt` (from 0) of at most
/// `max_retries`: the bytes end it; a request that cannot be sent fails at
/// once; a body that cannot be read is tried again while attempts are left.
pub open spec fn after_attempt(attempt: u32, max_retries: u32, outcome: AttemptResult) -> RetryAction {
    match outcome {
        AttemptResult::Received => RetryAction::Succeed,
        AttemptResult::SendFailed => RetryAction::Fail,
        AttemptResult::BodyFailed => if attempt + 1 < max_retries {
            RetryAction::Retry
        } else {
            RetryAction::Fail
        },
    }
}

/// Decides what to do after a download attempt, as `after_attempt` says. An
/// attempt is only made while `attempt < max_retries`, so at least one
/// attempt is allowed.
pub fn retry_decision(attempt: u32, max_retries: u32, outcome: AttemptResult) -> (a: RetryAction)
    requires
        attempt < max_retries,
    ensures
        a == after_attempt(attempt, max_retries, outcome),
{
    match outcome {
        AttemptResult::Received => RetryAction::Succeed,
        AttemptResult::SendFailed => RetryAction::Fail,
        AttemptResult::BodyFailed => if attempt + 1 < max_retries {
            RetryAction::Retry
        } else {
            RetryAction::Fail
        },
    }
}

/// The downloader never makes more than `max_retries` attempts: it retries
/// only while the next attempt is still below the limit.
pub proof fn law_attempts_bounded(attempt: u32, max_retries: u32, outcome: AttemptResult)
    requires
        attempt < max_retries,
    ensures
        after_attempt(attempt, max_retries, outcome) == RetryAction::Retry ==> attempt + 1 < max_retries,
        attempt + 1 == max_retries ==> after_attempt(attempt, max_retries, outcome) != RetryAction::Retry,
{
}

} // verus!
