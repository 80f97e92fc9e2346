//! Change detection.
//!
//! The detector holds the watched path and the last observed fingerprint,
//! and decides on each poll tick whether a backup is due: always on the
//! first observation, and afterwards exactly when the fingerprint differs
//! from the cached one. On a tick that plans a backup it also prepares the
//! backup's destination path, timestamp and printable fingerprint; copying
//! the file and printing are left to the caller.

use crate::fingerprint::sip128_of;
use crate::hex::fingerprint_hex_seq;
use crate::hex::format_fingerprint;
use crate::timestamp::timestamp_seq;
use crate::timestamp::format_timestamp;
use crate::timestamp::TimeFields;
use vstd::prelude::*;

verus! {

/// Why a tick plans a backup: the first observation of the file, or a
/// changed fingerprint.
#[derive(Clone, Copy, Debug, PartialEq, Eq, Structural)]
pub enum BackupKind {
    Starting,
    Changed,
}

/// The decision a tick takes, given the cached fingerprint and the one
/// just computed: a backup with its reason, or nothing.
pub open spec fn observe_outcome(cached: Option<u128>, fp: u128) -> Option<BackupKind> {
    match cached {
        None => Some(BackupKind::Starting),
        Some(c) => if c != fp {
            Some(BackupKind::Changed)
        } else {
            None
        },
    }
}

/// The destination of a backup: the watched path, a dot, the timestamp,
/// and a `.bak` suffix.
pub open spec fn backup_path_seq(path: Seq<u8>, ts: Seq<u8>) -> Seq<u8> {
    path + seq![46u8] + ts + seq![46u8, 98u8, 97u8, 107u8]
}

/// Everything a due backup needs: the reason, the 17-digit timestamp, the
/// destination path derived from it, and the fingerprint rendered for
/// logging.
pub struct BackupPlan {
    pub kind: BackupKind,
    pub timestamp: Vec<u8>,
    pub dest_path: Vec<u8>,
    pub fingerprint_hex: Vec<u8>,
}

/// State carried across poll ticks: the watched path, the last observed
/// fingerprint (`None` until one is cached), and whether per-change log
/// lines are suppressed.
pub struct PollContext {
    pub watch_path: Vec<u8>,
    pub cached_hash: Option<u128>,
    pub quiet: bool,
}

impl PollContext {
    /// A fresh context for the given path, with no fingerprint observed
    /// yet.
    pub fn new(watch_path: Vec<u8>, quiet: bool) -> (ctx: PollContext)
        ensures
            ctx.watch_path == watch_path,
            ctx.cached_hash is None,
            ctx.quiet == quiet,
    {
        PollContext { watch_path, cached_hash: None, quiet }
    }

    /// Establish the starting baseline without planning a backup: cache the
    /// given fingerprint, if one could be computed, and touch nothing else.
    pub fn prime(&mut self, fp: Option<u128>)
        ensures
            final(self).watch_path == old(self).watch_path,
            final(self).quiet == old(self).quiet,
            final(self).cached_hash == fp,
    {
        self.cached_hash = fp;
    }

    /// One tick's decision: cache the fingerprint just computed and report
    /// whether a backup is due, and why.
    pub fn observe(&mut self, fp: u128) -> (r: Option<BackupKind>)
        ensures
            final(self).watch_path == old(self).watch_path,
            final(self).quiet == old(self).quiet,
            final(self).cached_hash == Some(fp),
            r == observe_outcome(old(self).cached_hash, fp),
    {
        let r = match self.cached_hash {
            None => Some(BackupKind::Starting),
            Some(c) => if c != fp {
                Some(BackupKind::Changed)
            } else {
                None
            },
        };
        self.cached_hash = Some(fp);
        r
    }

    /// A full tick: decide as `observe` does and, when a backup is due,
    /// prepare its destination path, timestamp and printable fingerprint
    /// for the given instant.
    pub fn plan_tick(&mut self, fp: u128, t: &TimeFields) -> (r: Option<BackupPlan>)
        requires
            t.valid(),
        ensures
            final(self).watch_path == old(self).watch_path,
            final(self).quiet == old(self).quiet,
            final(self).cached_hash == Some(fp),
            r is Some <==> observe_outcome(old(self).cached_hash, fp) is Some,
            r is Some ==> r->0.kind == observe_outcome(old(self).cached_hash, fp)->0,
            r is Some ==> r->0.timestamp@ == timestamp_seq(*t),
            r is Some ==> r->0.dest_path@ == backup_path_seq(
                old(self).watch_path@,
                timestamp_seq(*t),
            ),
            r is Some ==> r->0.fingerprint_hex@ == fingerprint_hex_seq(fp),
    {
        let decision = self.observe(fp);
        match decision {
            None => None,
            Some(kind) => {
                let timestamp = format_timestamp(t);
                let dest_path = backup_path(&self.watch_path, &timestamp);
                let fingerprint_hex = format_fingerprint(fp);
                Some(BackupPlan { kind, timestamp, dest_path, fingerprint_hex })
            },
        }
    }
}

/// Build the destination path for a backup: the watched path, a dot, the
/// timestamp, and a `.bak` suffix.
pub fn backup_path(path: &Vec<u8>, ts: &Vec<u8>) -> (r: Vec<u8>)
    ensures
        r@ == backup_path_seq(path@, ts@),
{
    let mut out: Vec<u8> = Vec::new();
    let mut i: usize = 0;
    while i < path.len()
        invariant
            i <= path.len(),
            out@ == path@.take(i as int),
        decreases path.len() - i,
    {
        out.push(path[i]);
        proof {
            assert(path@.take((i + 1) as int) =~= path@.take(i as int).push(path@[i as int]));
        }
        i = i + 1;
    }
    proof {
        assert(path@.take(path@.len() as int) =~= path@);
    }
    out.push(46);
    let mut j: usize = 0;
    while j < ts.len()
        invariant
            j <= ts.len(),
            out@ == path@ + seq![46u8] + ts@.take(j as int),
        decreases ts.len() - j,
    {
        out.push(ts[j]);
        proof {
            assert((path@ + seq![46u8] + ts@.take(j as int)).push(ts@[j as int])
                =~= path@ + seq![46u8] + ts@.take((j + 1) as int));
        }
        j = j + 1;
    }
    out.push(46);
    out.push(98);
    out.push(97);
    out.push(107);
    proof {
        assert(ts@.take(ts@.len() as int) =~= ts@);
        assert(out@ =~= backup_path_seq(path@, ts@));
    }
    out
}

/// No-change idempotence: a tick caches the fingerprint of the content it
/// saw, so a second tick over unmodified content finds the same
/// fingerprint and plans no backup.
pub proof fn lemma_no_change_no_backup(content: Seq<u8>)
    ensures
        observe_outcome(Some(sip128_of(content)), sip128_of(content)) is None,
{
}

/// A change triggers exactly one backup: once the old and new contents
/// fingerprint differently, the first tick after the change plans a backup
/// for the new content, and the next tick over the unmodified new content
/// plans none.
pub proof fn lemma_change_triggers_one_backup(old_content: Seq<u8>, new_content: Seq<u8>)
    requires
        sip128_of(old_content) != sip128_of(new_content),
    ensures
        observe_outcome(Some(sip128_of(old_content)), sip128_of(new_content)) == Some(
            BackupKind::Changed,
        ),
        observe_outcome(Some(sip128_of(new_content)), sip128_of(new_content)) is None,
{
}

/// Starting-backup flag semantics: a first tick with nothing cached always
/// plans a starting backup, which is how the flag forces one; priming the
/// baseline instead makes the next tick over unchanged content plan
/// nothing.
pub proof fn lemma_starting_backup_flag(fp: u128)
    ensures
        observe_outcome(None, fp) == Some(BackupKind::Starting),
        observe_outcome(Some(fp), fp) is None,
{
}

} // verus!
