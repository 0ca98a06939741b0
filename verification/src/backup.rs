//! Backups of the database: their names, how long they are kept, and what is
//! asked of one before it is restored.
use vstd::prelude::*;
use crate::numbers::{decimal, show_i64};
use crate::sorting::{sorted, stable_sort, views};
use crate::stamps::{file_stamp, fresh_id, is_stamp, is_uuid};
use crate::text::{
    ends, ends_with, eq_ignore_ascii_case, replace_char, replaced, same_ignoring_ascii_case, starts,
    starts_with,
};

verus! {

/// How many backups that were made by themselves are kept.
pub const AUTO_BACKUP_RETENTION: usize = 14;

/// How many hours pass between two looks at the backups.
pub const AUTO_BACKUP_INTERVAL_HOURS: u64 = 24;

/// How old the newest backup has to be for another to be made, in seconds.
pub const AUTO_BACKUP_RECENT_THRESHOLD_SECS: u64 = 72_000;

// ---------------------------------------------------------------------------
// Names
// ---------------------------------------------------------------------------

/// The name of a backup: a beginning, a stamp and an ending.
pub open spec fn backup_name(beginning: Seq<char>, stamp: Seq<char>) -> Seq<char> {
    beginning + stamp + ".db"@
}

/// The name is that of a backup that was made by itself.
pub open spec fn is_auto_name(name: Seq<char>) -> bool {
    starts(name, "auto_"@) && ends(name, ".db"@)
}

/// The name of a backup.
pub fn name_backup(beginning: &str, stamp: &str) -> (r: String)
    ensures
        r@ == backup_name(beginning@, stamp@),
{
    let mut s = beginning.to_owned();
    s.append(stamp);
    s.append(".db");
    s
}

/// Whether the name is that of a backup that was made by itself.
pub fn looks_auto(name: &str) -> (r: bool)
    ensures
        r == is_auto_name(name@),
{
    starts_with(name, "auto_") && ends_with(name, ".db")
}

/// The name of a backup that is made by itself.
pub fn auto_backup_name() -> (r: String)
    ensures
        exists|stamp: Seq<char>| is_stamp(stamp) && r@ == #[trigger] backup_name("auto_"@, stamp),
        is_auto_name(r@),
{
    let stamp = file_stamp();
    let r = name_backup("auto_", &stamp);
    proof {
        law_auto_names_are_known(stamp@);
    }
    r
}

/// The name under which a backup is made by itself is known as such.
pub proof fn law_auto_names_are_known(stamp: Seq<char>)
    ensures
        is_auto_name(backup_name("auto_"@, stamp)),
{
    let n = backup_name("auto_"@, stamp);
    assert(n.take("auto_"@.len() as int) =~= "auto_"@);
    assert(n.skip(n.len() - ".db"@.len()) =~= ".db"@);
}

/// The name of a backup that the user asked for.
pub fn manual_backup_name() -> (r: String)
    ensures
        exists|stamp: Seq<char>| is_stamp(stamp) && r@ == #[trigger] backup_name("manual_"@, stamp),
{
    name_backup("manual_", &file_stamp())
}

/// The name of the backup that is made before another is restored.
pub fn pre_restore_backup_name() -> (r: String)
    ensures
        exists|stamp: Seq<char>|
            is_stamp(stamp) && r@ == #[trigger] backup_name("pre_restore_"@, stamp),
{
    name_backup("pre_restore_", &file_stamp())
}

/// The beginning of the name of the backup that is made before the schema
/// changes.
pub open spec fn migration_beginning(from: int, to: int) -> Seq<char> {
    "pre_migration_v"@ + decimal(from) + "_to_v"@ + decimal(to) + "_"@
}

/// The name of the backup that is made before the schema changes.
pub fn migration_backup_name(from: i64, to: i64) -> (r: String)
    ensures
        exists|stamp: Seq<char>|
            is_stamp(stamp) && r@ == #[trigger] backup_name(
                migration_beginning(from as int, to as int),
                stamp,
            ),
{
    let mut s = "pre_migration_v".to_owned();
    s.append(&show_i64(from));
    s.append("_to_v");
    s.append(&show_i64(to));
    s.append("_");
    assert(s@ == migration_beginning(from as int, to as int));
    name_backup(&s, &file_stamp())
}

/// The name of the file in which a backup is written before it gets its own.
pub fn temporary_backup_name() -> (r: String)
    ensures
        exists|id: Seq<char>| is_uuid(id) && r@ == #[trigger] backup_name(".tmp_backup_"@, id),
{
    name_backup(".tmp_backup_", &fresh_id())
}

/// The path as it stands between quotes in SQL.
pub open spec fn quoted(path: Seq<char>) -> Seq<char> {
    replaced(path, '\'', "''"@)
}

/// The path as it stands between quotes in SQL.
pub fn escaped_sqlite_path(path: &str) -> (r: String)
    ensures
        r@ == quoted(path@),
{
    replace_char(path, '\'', "''")
}

// ---------------------------------------------------------------------------
// Keeping
// ---------------------------------------------------------------------------

/// A file in the directory of backups with the time of its last change.
#[verifier::ext_equal]
#[derive(Debug)]
pub struct BackupFile<S = String> {
    pub name: S,
    /// In nanoseconds.
    pub modified: u128,
}

impl View for BackupFile<String> {
    type V = BackupFile<Seq<char>>;

    open spec fn view(&self) -> BackupFile<Seq<char>> {
        BackupFile { name: self.name@, modified: self.modified }
    }
}

/// The newest first.
pub open spec fn newest_first() -> spec_fn(BackupFile<Seq<char>>, BackupFile<Seq<char>>) -> bool {
    |a: BackupFile<Seq<char>>, b: BackupFile<Seq<char>>| a.modified >= b.modified
}

/// The backups that were made by themselves, the newest first.
pub open spec fn auto_backups(files: Seq<BackupFile<Seq<char>>>) -> Seq<BackupFile<Seq<char>>> {
    sorted(files.filter(|f: BackupFile<Seq<char>>| is_auto_name(f.name)), newest_first())
}

/// The backups that are removed: all but the newest that were made by
/// themselves.
pub open spec fn outdated(files: Seq<BackupFile<Seq<char>>>) -> Seq<BackupFile<Seq<char>>> {
    let all = auto_backups(files);
    if all.len() <= AUTO_BACKUP_RETENTION {
        Seq::empty()
    } else {
        all.skip(AUTO_BACKUP_RETENTION as int)
    }
}

/// The backups that were made by themselves, the newest first.
pub fn list_auto_backups(files: Vec<BackupFile>) -> (r: Vec<BackupFile>)
    ensures
        views(r@) == auto_backups(views(files@)),
{
    let mut kept = files;
    crate::table::keep_rows(
        &mut kept,
        |f: &BackupFile| -> (r: bool)
            ensures
                r == is_auto_name(f@.name)
            { looks_auto(&f.name) },
        Ghost(|f: BackupFile<Seq<char>>| is_auto_name(f.name)),
    );
    stable_sort(
        kept,
        |a: &BackupFile, b: &BackupFile| -> (r: bool)
            ensures
                r == (a@.modified >= b@.modified)
            { a.modified >= b.modified },
        Ghost(newest_first()),
    )
}

/// The backups that are removed: all but the newest that were made by
/// themselves.
pub fn prune_auto_backups(files: Vec<BackupFile>) -> (r: Vec<BackupFile>)
    ensures
        views(r@) == outdated(views(files@)),
{
    let mut all = list_auto_backups(files);
    let ghost before = views(all@);
    if all.len() <= AUTO_BACKUP_RETENTION {
        let r: Vec<BackupFile> = Vec::new();
        assert(views(r@) =~= Seq::empty());
        return r;
    }
    let r = all.split_off(AUTO_BACKUP_RETENTION);
    assert(views(r@) =~= before.skip(AUTO_BACKUP_RETENTION as int));
    r
}

/// Only backups that were made by themselves are removed, and none that is
/// newer than one that stays.
pub proof fn law_only_old_auto_backups_are_removed(files: Seq<BackupFile<Seq<char>>>, i: int)
    requires
        0 <= i < outdated(files).len(),
    ensures
        is_auto_name(outdated(files)[i].name),
        auto_backups(files).len() == AUTO_BACKUP_RETENTION + outdated(files).len(),
        forall|k: int|
            0 <= k < AUTO_BACKUP_RETENTION ==> (#[trigger] auto_backups(files)[k]).modified
                >= outdated(files)[i].modified,
{
    broadcast use vstd::seq_lib::group_filter_ensures;

    let known = |f: BackupFile<Seq<char>>| is_auto_name(f.name);
    let kept = files.filter(known);
    let all = auto_backups(files);
    assert forall|k: int| 0 <= k < kept.len() implies known(#[trigger] kept[k]) by {}
    crate::sorting::lemma_sorted_members(kept, newest_first(), known);
    crate::sorting::law_sorted(kept, newest_first());
    let n = AUTO_BACKUP_RETENTION as int;
    assert(outdated(files)[i] == all[n + i]);
    assert(known(all[n + i]));
    assert forall|k: int| 0 <= k < n implies (#[trigger] all[k]).modified >= all[n + i].modified by {
        assert(newest_first()(all[k], all[n + i]));
    }
}

/// Whether a backup is made now: always where it is forced or there is none,
/// else where the newest is old enough. Its age is missing where the clock was
/// set back.
pub open spec fn is_due(force: bool, any: bool, age_secs: Option<u64>) -> bool {
    force || !any || match age_secs {
        Some(s) => s >= AUTO_BACKUP_RECENT_THRESHOLD_SECS,
        None => true,
    }
}

/// Whether a backup is made now.
pub fn backup_due(force: bool, any: bool, age_secs: Option<u64>) -> (r: bool)
    ensures
        r == is_due(force, any, age_secs),
{
    force || !any || match age_secs {
        Some(s) => s >= AUTO_BACKUP_RECENT_THRESHOLD_SECS,
        None => true,
    }
}

// ---------------------------------------------------------------------------
// Restoring
// ---------------------------------------------------------------------------

/// Why a backup is not restored, if it is not: it has to exist, and what the
/// integrity check says has to be `ok`.
pub open spec fn restore_fault(exists_there: bool, check: Seq<char>) -> Option<Seq<char>> {
    if !exists_there {
        Some("backup file not found"@)
    } else if !same_ignoring_ascii_case(check, "ok"@) {
        Some("backup integrity_check failed: "@ + check)
    } else {
        None
    }
}

/// Why a backup is not restored, if it is not.
pub fn check_restore(exists_there: bool, check: &str) -> (r: Result<(), String>)
    ensures
        match restore_fault(exists_there, check@) {
            Some(e) => match r {
                Err(m) => m@ == e,
                Ok(_) => false,
            },
            None => r is Ok,
        },
{
    if !exists_there {
        return Err("backup file not found".to_owned());
    }
    if !eq_ignore_ascii_case(check, "ok") {
        let mut e = "backup integrity_check failed: ".to_owned();
        e.append(check);
        return Err(e);
    }
    Ok(())
}

} // verus!
