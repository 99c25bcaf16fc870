use vstd::prelude::*;

use crate::error::ExtensionError;
use crate::model::{AppRecord, SteamApp, records, unique_ids};
use crate::number::{all_digits, parse_unsigned, parse_u32, parse_u64, unsigned_digits};
use crate::vdf::{extract, extract_vdf_value, key_not_found_message};

verus! {

/// The size on disk that a manifest gives: present only where its text is a `u64`.
pub open spec fn size_field(content: Seq<char>) -> Option<u64> {
    match extract(content, "SizeOnDisk"@) {
        Some(s) => match parse_unsigned(s, u64::MAX as nat) {
            Some(v) => Some(v as u64),
            None => None,
        },
        None => None,
    }
}

/// The application that a manifest describes, or `None` when its `appid` or `name` is
/// missing or its `appid` is not a `u32`.
pub open spec fn manifest_record(content: Seq<char>) -> Option<AppRecord> {
    match (extract(content, "appid"@), extract(content, "name"@)) {
        (Some(id), Some(name)) => match parse_unsigned(id, u32::MAX as nat) {
            Some(v) => Some(
                AppRecord {
                    appid: v as u32,
                    name,
                    install_dir: extract(content, "installdir"@),
                    size_on_disk: size_field(content),
                    last_updated: None,
                    launch_options: None,
                },
            ),
            None => None,
        },
        _ => None,
    }
}

/// The message of the error for a manifest that `manifest_record` rejects.
pub open spec fn manifest_error(content: Seq<char>) -> Seq<char> {
    if extract(content, "appid"@) is None {
        key_not_found_message("appid"@)
    } else if extract(content, "name"@) is None {
        key_not_found_message("name"@)
    } else {
        "Invalid appid"@
    }
}

/// Parses the text of an application manifest. `appid` and `name` are required, and
/// `appid` must be a `u32`; `installdir` and `SizeOnDisk` are read where present.
pub fn parse_app_manifest(content: &str) -> (r: Result<SteamApp, ExtensionError>)
    ensures
        r is Ok <==> manifest_record(content@) is Some,
        r matches Ok(app) ==> manifest_record(content@) == Some(app@),
        r matches Err(e) ==> e matches ExtensionError::Validation(m) && m@ == manifest_error(
            content@,
        ),
{
    let appid = extract_vdf_value(content, "appid")?;
    let name = extract_vdf_value(content, "name")?;
    let install_dir = match extract_vdf_value(content, "installdir") {
        Ok(v) => Some(v),
        Err(_) => None,
    };
    let size_on_disk = match extract_vdf_value(content, "SizeOnDisk") {
        Ok(v) => parse_u64(v.as_str()),
        Err(_) => None,
    };
    let id = match parse_u32(appid.as_str()) {
        Some(v) => v,
        None => {
            proof {
                reveal_strlit("Invalid appid");
            }
            return Err(ExtensionError::Validation("Invalid appid".to_string()));
        },
    };
    Ok(
        SteamApp {
            appid: id,
            name,
            install_dir,
            size_on_disk,
            last_updated: None,
            launch_options: None,
        },
    )
}

/// The records after adding `r`: it takes the place of a record with its appid, or
/// comes last when there is none.
pub open spec fn insert_record(recs: Seq<AppRecord>, r: AppRecord) -> Seq<AppRecord> {
    if exists|i: int| 0 <= i < recs.len() && recs[i].appid == r.appid {
        recs.update(choose|i: int| 0 <= i < recs.len() && recs[i].appid == r.appid, r)
    } else {
        recs.push(r)
    }
}

/// The applications that a library scan finds in manifests read in this order, or
/// `None` when one of them is rejected.
pub open spec fn scan_records(contents: Seq<Seq<char>>) -> Option<Seq<AppRecord>>
    decreases contents.len(),
{
    if contents.len() == 0 {
        Some(Seq::empty())
    } else {
        match (scan_records(contents.drop_last()), manifest_record(contents.last())) {
            (Some(recs), Some(r)) => Some(insert_record(recs, r)),
            _ => None,
        }
    }
}

/// The texts held by a list of strings.
pub open spec fn texts_of(v: Seq<String>) -> Seq<Seq<char>> {
    v.map_values(|s: String| s@)
}

/// `k` is the first manifest that `manifest_record` rejects.
pub open spec fn first_rejected(texts: Seq<Seq<char>>, k: int) -> bool {
    &&& 0 <= k < texts.len()
    &&& manifest_record(texts[k]) is None
    &&& forall|j: int| 0 <= j < k ==> manifest_record(#[trigger] texts[j]) is Some
}

/// Adds an application to a list in which each appid occurs once, replacing the entry
/// with the same appid.
pub fn insert_app(apps: &mut Vec<SteamApp>, app: SteamApp)
    requires
        unique_ids(records(old(apps)@)),
    ensures
        records(final(apps)@) == insert_record(records(old(apps)@), app@),
        unique_ids(records(final(apps)@)),
{
    let ghost recs = records(apps@);
    let mut i: usize = 0;
    while i < apps.len()
        invariant
            i <= apps@.len(),
            recs == records(apps@),
            recs == records(old(apps)@),
            unique_ids(recs),
            forall|j: int| 0 <= j < i ==> apps@[j].appid != app.appid,
        decreases apps@.len() - i,
    {
        if apps[i].appid == app.appid {
            assert(recs[i as int].appid == app@.appid);
            proof {
                let k = choose|k: int| 0 <= k < recs.len() && recs[k].appid == app@.appid;
                assert(recs[k].appid == recs[i as int].appid);
            }
            apps.set(i, app);
            assert(records(apps@) =~= recs.update(i as int, app@));
            proof {
                let nr = records(apps@);
                assert forall|a: int, b: int|
                    0 <= a < nr.len() && 0 <= b < nr.len() && #[trigger] nr[a].appid
                        == #[trigger] nr[b].appid implies a == b by {
                    if a != i && b != i {
                        assert(recs[a].appid == recs[b].appid);
                    } else if a != i {
                        assert(recs[a].appid == recs[i as int].appid);
                    } else if b != i {
                        assert(recs[b].appid == recs[i as int].appid);
                    }
                }
            }
            return;
        }
        i = i + 1;
    }
    apps.push(app);
    assert(records(apps@) =~= recs.push(app@));
    assert(!exists|k: int| 0 <= k < recs.len() && recs[k].appid == app@.appid) by {
        assert forall|k: int| 0 <= k < recs.len() implies recs[k].appid != app@.appid by {
            assert(recs[k] == apps@[k]@);
        }
    }
}

/// Reads the applications of one library from the texts of its manifests, in order.
/// A later manifest with an appid already seen replaces the earlier record; a rejected
/// manifest fails the whole scan.
pub fn scan_games_in_library(manifests: &Vec<String>) -> (r: Result<Vec<SteamApp>, ExtensionError>)
    ensures
        r is Ok <==> scan_records(manifests@.map_values(|s: String| s@)) is Some,
        r matches Ok(apps) ==> scan_records(manifests@.map_values(|s: String| s@)) == Some(
            records(apps@),
        ) && unique_ids(records(apps@)),
        r matches Err(e) ==> exists|k: int|
            #[trigger] first_rejected(texts_of(manifests@), k) && (e matches ExtensionError::Validation(
                m,
            ) && m@ == manifest_error(manifests@[k]@)),
{
    let ghost texts = manifests@.map_values(|s: String| s@);
    let mut apps: Vec<SteamApp> = Vec::new();
    let mut i: usize = 0;
    assert(records(apps@) =~= Seq::<AppRecord>::empty());
    while i < manifests.len()
        invariant
            i <= manifests@.len(),
            texts == manifests@.map_values(|s: String| s@),
            scan_records(texts.take(i as int)) == Some(records(apps@)),
            unique_ids(records(apps@)),
            forall|j: int| 0 <= j < i ==> manifest_record(#[trigger] texts[j]) is Some,
        decreases manifests@.len() - i,
    {
        let ghost prefix = texts.take(i as int + 1);
        assert(prefix.drop_last() =~= texts.take(i as int));
        assert(prefix.last() == manifests@[i as int]@);
        let app = match parse_app_manifest(manifests[i].as_str()) {
            Ok(a) => a,
            Err(e) => {
                proof {
                    lemma_scan_fails_after(texts, i as int + 1);
                    assert(texts[i as int] == manifests@[i as int]@);
                    assert(texts == texts_of(manifests@));
                    assert(first_rejected(texts_of(manifests@), i as int));
                }
                return Err(e);
            },
        };
        insert_app(&mut apps, app);
        i = i + 1;
    }
    assert(texts.take(manifests@.len() as int) =~= texts);
    Ok(apps)
}

/// Once a prefix of the manifests fails the scan, the whole list does.
proof fn lemma_scan_fails_after(texts: Seq<Seq<char>>, k: int)
    requires
        0 <= k <= texts.len(),
        scan_records(texts.take(k)) is None,
    ensures
        scan_records(texts) is None,
    decreases texts.len() - k,
{
    if k < texts.len() {
        let next = texts.take(k + 1);
        assert(next.drop_last() =~= texts.take(k));
        lemma_scan_fails_after(texts, k + 1);
    } else {
        assert(texts.take(k) =~= texts);
    }
}

/// A manifest whose `appid` holds a character that is not a decimal digit (after an
/// optional leading `+`) is rejected.
pub proof fn lemma_non_numeric_appid_rejected(content: Seq<char>)
    requires
        extract(content, "appid"@) matches Some(id) && !all_digits(unsigned_digits(id)),
    ensures
        manifest_record(content) is None,
{
}

/// A rejected manifest fails every library scan that reads it, wherever it stands among
/// the manifests: no partial list of applications comes out.
pub proof fn lemma_rejected_manifest_fails_scan(texts: Seq<Seq<char>>, k: int)
    requires
        0 <= k < texts.len(),
        manifest_record(texts[k]) is None,
    ensures
        scan_records(texts) is None,
{
    assert(texts.take(k + 1).last() == texts[k]);
    lemma_scan_fails_after(texts, k + 1);
}

/// Scanning a manifest whose appid is already listed replaces the listed record: the
/// number of records stays the same, appids stay unique, and the record kept for that
/// appid is the new one.
pub proof fn lemma_rescan_overwrites(recs: Seq<AppRecord>, r: AppRecord)
    requires
        unique_ids(recs),
        exists|i: int| 0 <= i < recs.len() && recs[i].appid == r.appid,
    ensures
        insert_record(recs, r).len() == recs.len(),
        unique_ids(insert_record(recs, r)),
        forall|i: int|
            0 <= i < recs.len() && (#[trigger] insert_record(recs, r)[i]).appid == r.appid
                ==> insert_record(recs, r)[i] == r,
{
    let k = choose|i: int| 0 <= i < recs.len() && recs[i].appid == r.appid;
    let nr = insert_record(recs, r);
    assert(nr == recs.update(k, r));
    assert forall|a: int, b: int|
        0 <= a < nr.len() && 0 <= b < nr.len() && #[trigger] nr[a].appid
            == #[trigger] nr[b].appid implies a == b by {
        if a != k && b != k {
            assert(recs[a].appid == recs[b].appid);
        } else if a != k {
            assert(recs[a].appid == recs[k].appid);
        } else if b != k {
            assert(recs[b].appid == recs[k].appid);
        }
    }
    assert forall|i: int| 0 <= i < recs.len() && (#[trigger] nr[i]).appid == r.appid implies nr[i]
        == r by {
        if i != k {
            assert(recs[i].appid == recs[k].appid);
        }
    }
}

/// Adding a record keeps appids unique, holds the new record, and leaves every record
/// with another appid where it was.
proof fn lemma_insert_record(recs: Seq<AppRecord>, r: AppRecord)
    requires
        unique_ids(recs),
    ensures
        unique_ids(insert_record(recs, r)),
        exists|i: int| 0 <= i < insert_record(recs, r).len() && insert_record(recs, r)[i] == r,
        insert_record(recs, r).len() >= recs.len(),
        forall|j: int|
            0 <= j < recs.len() && recs[j].appid != r.appid ==> #[trigger] insert_record(recs, r)[j]
                == recs[j],
{
    let nr = insert_record(recs, r);
    if exists|i: int| 0 <= i < recs.len() && recs[i].appid == r.appid {
        let k = choose|i: int| 0 <= i < recs.len() && recs[i].appid == r.appid;
        lemma_rescan_overwrites(recs, r);
        assert(nr[k] == r);
    } else {
        assert(nr == recs.push(r));
        assert(nr[recs.len() as int] == r);
        assert forall|a: int, b: int|
            0 <= a < nr.len() && 0 <= b < nr.len() && #[trigger] nr[a].appid
                == #[trigger] nr[b].appid implies a == b by {
            if a < recs.len() && b < recs.len() {
                assert(recs[a].appid == recs[b].appid);
            } else if a < recs.len() {
                assert(recs[a].appid == r.appid);
            } else if b < recs.len() {
                assert(recs[b].appid == r.appid);
            }
        }
    }
}

/// A scan that succeeds lists each appid once.
proof fn lemma_scan_unique(texts: Seq<Seq<char>>)
    requires
        scan_records(texts) is Some,
    ensures
        unique_ids(scan_records(texts)->0),
    decreases texts.len(),
{
    if texts.len() > 0 {
        lemma_scan_unique(texts.drop_last());
        lemma_insert_record(
            scan_records(texts.drop_last())->0,
            manifest_record(texts.last())->0,
        );
    }
}

/// When several manifests of a library share an appid, a successful scan lists that
/// appid once, with the record of the last of them.
pub proof fn lemma_scan_keeps_last(texts: Seq<Seq<char>>, p: int)
    requires
        scan_records(texts) is Some,
        0 <= p < texts.len(),
        manifest_record(texts[p]) is Some,
        forall|q: int|
            p < q < texts.len() ==> (manifest_record(#[trigger] texts[q]) matches Some(b) && (b.appid
                != manifest_record(texts[p])->0.appid)),
    ensures
        unique_ids(scan_records(texts)->0),
        exists|i: int|
            0 <= i < scan_records(texts)->0.len() && scan_records(texts)->0[i] == manifest_record(
                texts[p],
            )->0,
    decreases texts.len(),
{
    let prev = texts.drop_last();
    let a = manifest_record(texts[p])->0;
    let b = manifest_record(texts.last())->0;
    assert(scan_records(prev) is Some && manifest_record(texts.last()) is Some);
    let recs = scan_records(prev)->0;
    assert(scan_records(texts)->0 == insert_record(recs, b));
    lemma_scan_unique(prev);
    lemma_insert_record(recs, b);
    if p < texts.len() - 1 {
        assert forall|q: int| p < q < prev.len() implies (manifest_record(#[trigger] prev[q]) matches Some(
            c,
        ) && (c.appid != manifest_record(prev[p])->0.appid)) by {
            assert(prev[q] == texts[q]);
        }
        assert(prev[p] == texts[p]);
        lemma_scan_keeps_last(prev, p);
        let i = choose|i: int| 0 <= i < recs.len() && recs[i] == a;
        assert(texts.last() == texts[texts.len() - 1]);
        assert(b.appid != a.appid);
        assert(insert_record(recs, b)[i] == recs[i]);
    } else {
        assert(texts.last() == texts[p]);
    }
}

} // verus!
