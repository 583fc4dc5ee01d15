//! File checkpoints for undoing a turn, and line-level change counts.
//!
//! The library keeps the bookkeeping; reading a file before a tool edits it,
//! and writing a snapshot back on undo, are done by the host, which hands the
//! file contents in and takes the snapshots to restore out.

use vstd::prelude::*;
use crate::error::ArrowError;
use crate::text::{concat_str, decimal, decimal_string, same_text};
use crate::types::{LLMMessage, Role};

verus! {

/// Error of a rewind operation.
#[derive(Debug, Clone)]
pub struct RewindError {
    pub message: String,
}

impl RewindError {
    pub fn new(message: String) -> (e: Self)
        ensures
            e.message == message,
    {
        RewindError { message }
    }

    pub fn message(&self) -> (s: &str)
        ensures
            s@ == self.message@,
    {
        self.message.as_str()
    }

    /// The session error a rewind error becomes.
    pub fn into_arrow_error(self) -> (e: ArrowError)
        ensures
            e == ArrowError::Session(self.message),
    {
        ArrowError::Session(self.message)
    }
}

/// The content of a file at one moment; `content` is `None` when the file
/// did not exist.
#[derive(Debug, Clone)]
pub struct FileSnapshot {
    pub path: String,
    pub content: Option<Vec<u8>>,
}

/// Path and content of a snapshot.
pub type SnapView = (Seq<char>, Option<Seq<u8>>);

pub open spec fn bytes_view(c: Option<Vec<u8>>) -> Option<Seq<u8>> {
    match c {
        Some(v) => Some(v@),
        None => None,
    }
}

pub open spec fn snap_view(s: FileSnapshot) -> SnapView {
    (s.path@, bytes_view(s.content))
}

pub open spec fn files_view(f: Seq<FileSnapshot>) -> Seq<SnapView> {
    f.map_values(|s: FileSnapshot| snap_view(s))
}

impl FileSnapshot {
    pub fn new(path: String, content: Option<Vec<u8>>) -> (s: Self)
        ensures
            s.path == path,
            s.content == content,
    {
        FileSnapshot { path, content }
    }
}

/// Snapshots of the tracked files taken before a user message.
#[derive(Debug, Clone)]
pub struct Checkpoint {
    pub message_index: usize,
    pub files: Vec<FileSnapshot>,
}

/// Message index and snapshots of a checkpoint.
pub type CheckpointView = (usize, Seq<SnapView>);

pub open spec fn cp_view(c: Checkpoint) -> CheckpointView {
    (c.message_index, files_view(c.files@))
}

impl Checkpoint {
    pub fn new(message_index: usize) -> (c: Self)
        ensures
            c.message_index == message_index,
            c.files@.len() == 0,
    {
        Checkpoint { message_index, files: Vec::new() }
    }

    pub fn add_snapshot(&mut self, snapshot: FileSnapshot)
        ensures
            final(self).message_index == old(self).message_index,
            final(self).files@ == old(self).files@.push(snapshot),
    {
        self.files.push(snapshot);
    }
}

/// Some snapshot in `files` is of `path`.
pub open spec fn has_path(files: Seq<SnapView>, path: Seq<char>) -> bool {
    exists|i: int| 0 <= i < files.len() && (#[trigger] files[i]).0 == path
}

/// `files` with `s` added unless a snapshot of its path is already there.
pub open spec fn add_if_absent(files: Seq<SnapView>, s: SnapView) -> Seq<SnapView> {
    if has_path(files, s.0) {
        files
    } else {
        files.push(s)
    }
}

/// Record `s` into the latest checkpoint of `v` (nothing without one).
pub open spec fn record_latest(v: Seq<CheckpointView>, s: SnapView) -> Seq<CheckpointView> {
    if v.len() == 0 {
        v
    } else {
        v.update(v.len() - 1, (v.last().0, add_if_absent(v.last().1, s)))
    }
}

/// Record each snapshot of `ss` in order.
pub open spec fn record_all(v: Seq<CheckpointView>, ss: Seq<SnapView>) -> Seq<CheckpointView>
    decreases ss.len(),
{
    if ss.len() == 0 {
        v
    } else {
        record_latest(record_all(v, ss.drop_last()), ss.last())
    }
}

/// Checkpoints left after undoing the latest: those strictly before it.
pub open spec fn after_pop(v: Seq<CheckpointView>) -> Seq<CheckpointView> {
    v.drop_last().filter(|c: CheckpointView| c.0 < v.last().0)
}

/// Index of the first snapshot of `path`, when there is one.
pub open spec fn first_path_index(files: Seq<SnapView>, path: Seq<char>, i: int) -> bool {
    &&& 0 <= i < files.len()
    &&& files[i].0 == path
    &&& forall|j: int| 0 <= j < i ==> (#[trigger] files[j]).0 != path
}

fn contains_path(files: &Vec<FileSnapshot>, path: &str) -> (r: Option<usize>)
    ensures
        r is None ==> !has_path(files_view(files@), path@),
        r matches Some(i) ==> first_path_index(files_view(files@), path@, i as int),
{
    let ghost fv = files_view(files@);
    let mut i: usize = 0;
    while i < files.len()
        invariant
            fv == files_view(files@),
            fv.len() == files@.len(),
            i <= files@.len(),
            forall|j: int| 0 <= j < i ==> (#[trigger] fv[j]).0 != path@,
        decreases files@.len() - i,
    {
        if same_text(files[i].path.as_str(), path) {
            return Some(i);
        }
        i = i + 1;
    }
    None
}

/// Per-turn file checkpoints used to undo the file changes of a turn.
#[derive(Debug, Clone)]
pub struct FileCheckpointer {
    checkpoints: Vec<Checkpoint>,
}

impl View for FileCheckpointer {
    type V = Seq<CheckpointView>;

    closed spec fn view(&self) -> Seq<CheckpointView> {
        self.checkpoints@.map_values(|c: Checkpoint| cp_view(c))
    }
}

impl FileCheckpointer {
    pub fn new() -> (c: Self)
        ensures
            c@ == Seq::<CheckpointView>::empty(),
    {
        let c = FileCheckpointer { checkpoints: Vec::new() };
        assert(c@ =~= Seq::<CheckpointView>::empty());
        c
    }

    /// All checkpoints, oldest first.
    pub fn checkpoints(&self) -> (r: &[Checkpoint])
        ensures
            r@.map_values(|c: Checkpoint| cp_view(c)) == self@,
    {
        self.checkpoints.as_slice()
    }

    /// Open a checkpoint at message boundary `message_index`.
    pub fn create_checkpoint(&mut self, message_index: usize)
        ensures
            final(self)@ == old(self)@.push((message_index, Seq::<SnapView>::empty())),
    {
        let c = Checkpoint::new(message_index);
        assert(cp_view(c).1 =~= Seq::<SnapView>::empty());
        self.checkpoints.push(c);
        assert(self@ =~= old(self)@.push((message_index, Seq::<SnapView>::empty())));
    }

    /// Record `path` with the `content` it holds now (`None`: the file does
    /// not exist) in the latest checkpoint. Only the first snapshot of a path
    /// within a checkpoint is kept; with no checkpoint nothing is recorded.
    pub fn snapshot_file(&mut self, path: String, content: Option<Vec<u8>>)
        ensures
            final(self)@ == record_latest(old(self)@, (path@, bytes_view(content))),
    {
        if self.checkpoints.len() == 0 {
            return;
        }
        let ghost before = self.checkpoints@;
        let mut cp = self.checkpoints.pop().unwrap();
        let ghost cp0 = cp;
        let found = contains_path(&cp.files, path.as_str());
        let ghost s = (path@, bytes_view(content));
        if found.is_none() {
            cp.files.push(FileSnapshot { path, content });
            assert(files_view(cp.files@) =~= files_view(cp0.files@).push(s));
        } else {
            let i = found.unwrap();
            assert(files_view(cp0.files@)[i as int].0 == s.0);
        }
        self.checkpoints.push(cp);
        assert(self.checkpoints@ =~= before.update(before.len() - 1, cp));
        assert(self@ =~= record_latest(old(self)@, s));
    }

    /// Record several files, in order, as [`Self::snapshot_file`] does.
    pub fn snapshot_files(&mut self, files: Vec<(String, Option<Vec<u8>>)>)
        ensures
            final(self)@ == record_all(
                old(self)@,
                files@.map_values(|f: (String, Option<Vec<u8>>)| (f.0@, bytes_view(f.1))),
            ),
    {
        let ghost fs = files@.map_values(|f: (String, Option<Vec<u8>>)| (f.0@, bytes_view(f.1)));
        let total = files.len();
        let mut files = files;
        let mut rest: Vec<(String, Option<Vec<u8>>)> = Vec::new();
        // Reverse so that popping yields the files in their original order.
        while files.len() > 0
            invariant
                files@.len() + rest@.len() == fs.len(),
                forall|k: int| 0 <= k < files@.len() ==> (#[trigger] files@[k]).0@ == fs[k].0
                    && bytes_view(files@[k].1) == fs[k].1,
                forall|k: int| 0 <= k < rest@.len() ==> (#[trigger] rest@[k]).0@ == fs[fs.len() - 1 - k].0
                    && bytes_view(rest@[k].1) == fs[fs.len() - 1 - k].1,
            decreases files@.len(),
        {
            let f = files.pop().unwrap();
            rest.push(f);
        }
        let mut n: usize = 0;
        assert(fs.take(0) =~= Seq::<SnapView>::empty());
        while rest.len() > 0
            invariant
                n + rest@.len() == fs.len(),
                fs.len() == total,
                forall|k: int| 0 <= k < rest@.len() ==> (#[trigger] rest@[k]).0@ == fs[fs.len() - 1 - k].0
                    && bytes_view(rest@[k].1) == fs[fs.len() - 1 - k].1,
                self@ == record_all(old(self)@, fs.take(n as int)),
            decreases rest@.len(),
        {
            let f = rest.pop().unwrap();
            let (p, c) = f;
            self.snapshot_file(p, c);
            assert(fs.take(n + 1).drop_last() =~= fs.take(n as int));
            n = n + 1;
        }
        assert(fs.take(n as int) =~= fs);
    }

    /// Take the latest checkpoint off the stack so that its snapshots can be
    /// written back, and drop every remaining checkpoint at or after its
    /// message index. The caller truncates the conversation to the returned
    /// checkpoint's `message_index`.
    pub fn pop_for_restore(&mut self) -> (r: Result<Checkpoint, RewindError>)
        ensures
            old(self)@.len() == 0 ==> final(self)@ == old(self)@ && (r matches Err(e) && e.message@
                == "No checkpoint to restore"@),
            old(self)@.len() > 0 ==> (r matches Ok(c) && cp_view(c) == old(self)@.last())
                && final(self)@ == after_pop(old(self)@),
    {
        if self.checkpoints.len() == 0 {
            proof {
                reveal_strlit("No checkpoint to restore");
            }
            return Err(RewindError::new(String::from_str("No checkpoint to restore")));
        }
        let ghost before = self@;
        let cp = self.checkpoints.pop().unwrap();
        let ghost popped = self.checkpoints@;
        let ghost pv = popped.map_values(|c: Checkpoint| cp_view(c));
        assert(pv =~= before.drop_last());
        let mut kept: Vec<Checkpoint> = Vec::new();
        let mut i: usize = 0;
        while i < self.checkpoints.len()
            invariant
                self.checkpoints@ == popped,
                pv == popped.map_values(|c: Checkpoint| cp_view(c)),
                i <= popped.len(),
                kept@.map_values(|c: Checkpoint| cp_view(c)) == pv.take(i as int).filter(
                    |c: CheckpointView| c.0 < cp.message_index,
                ),
            decreases popped.len() - i,
        {
            proof {
                reveal_with_fuel(Seq::filter, 1);
                assert(pv.take(i + 1).drop_last() =~= pv.take(i as int));
            }
            if self.checkpoints[i].message_index < cp.message_index {
                let c = self.checkpoints[i].clone_checkpoint();
                let ghost k0 = kept@;
                kept.push(c);
                assert(kept@.map_values(|c: Checkpoint| cp_view(c)) =~= k0.map_values(
                    |c: Checkpoint| cp_view(c),
                ).push(cp_view(c)));
            }
            i = i + 1;
        }
        assert(pv.take(i as int) =~= pv);
        self.checkpoints = kept;
        Ok(cp)
    }

    /// Where the latest checkpoint holds a snapshot of `path`: the index of
    /// the first such snapshot, for restoring that single file.
    pub fn locate_snapshot(&self, path: &str) -> (r: Result<usize, RewindError>)
        ensures
            self@.len() == 0 ==> (r matches Err(e) && e.message@ == "No checkpoint to restore from"@),
            self@.len() > 0 && !has_path(self@.last().1, path@) ==> (r matches Err(e)
                && e.message@ == "No snapshot for "@ + path@),
            self@.len() > 0 && has_path(self@.last().1, path@) ==> (r matches Ok(i)
                && first_path_index(self@.last().1, path@, i as int)),
    {
        let n = self.checkpoints.len();
        if n == 0 {
            proof {
                reveal_strlit("No checkpoint to restore from");
            }
            return Err(RewindError::new(String::from_str("No checkpoint to restore from")));
        }
        assert(self@.last() == cp_view(self.checkpoints@[n - 1]));
        match contains_path(&self.checkpoints[n - 1].files, path) {
            Some(i) => Ok(i),
            None => {
                let msg = concat_str("No snapshot for ", path);
                proof {
                    reveal_strlit("No snapshot for ");
                }
                Err(RewindError::new(msg))
            },
        }
    }

    /// Drop the snapshot at `index` of the latest checkpoint once its file has
    /// been restored, so it is no longer reported as a pending change.
    pub fn drop_snapshot(&mut self, index: usize)
        requires
            old(self)@.len() > 0,
            index < old(self)@.last().1.len(),
        ensures
            final(self)@ == old(self)@.update(
                old(self)@.len() - 1,
                (old(self)@.last().0, old(self)@.last().1.remove(index as int)),
            ),
    {
        let ghost before = self.checkpoints@;
        let mut cp = self.checkpoints.pop().unwrap();
        let ghost cp0 = cp;
        assert(files_view(cp0.files@).len() == cp0.files@.len());
        cp.files.remove(index);
        assert(files_view(cp.files@) =~= files_view(cp0.files@).remove(index as int));
        self.checkpoints.push(cp);
        assert(self.checkpoints@ =~= before.update(before.len() - 1, cp));
        assert(self@ =~= old(self)@.update(
            old(self)@.len() - 1,
            (old(self)@.last().0, old(self)@.last().1.remove(index as int)),
        ));
    }

    /// Forget every checkpoint.
    pub fn clear(&mut self)
        ensures
            final(self)@ == Seq::<CheckpointView>::empty(),
    {
        self.checkpoints.clear();
        assert(self@ =~= Seq::<CheckpointView>::empty());
    }

    pub fn checkpoint_count(&self) -> (n: usize)
        ensures
            n == self@.len(),
    {
        self.checkpoints.len()
    }
}

impl Checkpoint {
    /// A copy with the same index and snapshots.
    pub fn clone_checkpoint(&self) -> (c: Self)
        ensures
            cp_view(c) == cp_view(*self),
    {
        let mut files: Vec<FileSnapshot> = Vec::new();
        let mut i: usize = 0;
        while i < self.files.len()
            invariant
                i <= self.files@.len(),
                files_view(files@) == files_view(self.files@).take(i as int),
            decreases self.files@.len() - i,
        {
            let s = self.files[i].clone_snapshot();
            let ghost f0 = files@;
            files.push(s);
            assert(files_view(files@) =~= files_view(f0).push(snap_view(s)));
            assert(files_view(self.files@).take(i + 1) =~= files_view(self.files@).take(
                i as int,
            ).push(snap_view(self.files@[i as int])));
            i = i + 1;
        }
        assert(files_view(self.files@).take(i as int) =~= files_view(self.files@));
        Checkpoint { message_index: self.message_index, files }
    }
}

impl FileSnapshot {
    /// A copy with the same path and content.
    pub fn clone_snapshot(&self) -> (s: Self)
        ensures
            snap_view(s) == snap_view(*self),
    {
        let content = match &self.content {
            Some(v) => {
                let mut w: Vec<u8> = Vec::new();
                let mut i: usize = 0;
                while i < v.len()
                    invariant
                        i <= v@.len(),
                        w@ == v@.take(i as int),
                    decreases v@.len() - i,
                {
                    w.push(v[i]);
                    i = i + 1;
                    assert(w@ =~= v@.take(i as int));
                }
                assert(v@.take(i as int) =~= v@);
                Some(w)
            },
            None => None,
        };
        FileSnapshot { path: self.path.clone(), content }
    }
}


/// `data` split at every `\n` byte, as `<[u8]>::split` does: `n` separators
/// give `n + 1` pieces, and empty input gives one empty piece.
pub open spec fn split_newlines(data: Seq<u8>) -> Seq<Seq<u8>>
    decreases data.len(),
{
    if data.len() == 0 {
        seq![Seq::<u8>::empty()]
    } else {
        let r = split_newlines(data.drop_last());
        if data.last() == 10u8 {
            r.push(Seq::<u8>::empty())
        } else {
            r.update(r.len() - 1, r.last().push(data.last()))
        }
    }
}

pub proof fn lemma_split_nonempty(data: Seq<u8>)
    ensures
        split_newlines(data).len() >= 1,
    decreases data.len(),
{
    if data.len() > 0 {
        lemma_split_nonempty(data.drop_last());
    }
}

/// A line without its trailing `\r`.
pub open spec fn chomp_cr(l: Seq<u8>) -> Seq<u8> {
    if l.len() > 0 && l.last() == 13u8 {
        l.drop_last()
    } else {
        l
    }
}

/// The lines of a file's content; a missing file has no lines.
pub open spec fn lines_of(c: Option<Seq<u8>>) -> Seq<Seq<u8>> {
    match c {
        Some(b) => split_newlines(b).map_values(|l: Seq<u8>| chomp_cr(l)),
        None => Seq::empty(),
    }
}

/// Number of entries of `xs` that do not occur anywhere in `ys`.
pub open spec fn count_absent(xs: Seq<Seq<u8>>, ys: Seq<Seq<u8>>) -> nat
    decreases xs.len(),
{
    if xs.len() == 0 {
        0
    } else {
        count_absent(xs.drop_last(), ys) + if ys.contains(xs.last()) { 0nat } else { 1nat }
    }
}

pub proof fn lemma_count_absent_bound(xs: Seq<Seq<u8>>, ys: Seq<Seq<u8>>)
    ensures
        count_absent(xs, ys) <= xs.len(),
    decreases xs.len(),
{
    if xs.len() > 0 {
        lemma_count_absent_bound(xs.drop_last(), ys);
    }
}

/// `(added, removed)`: lines of the current content absent from the
/// snapshot, and lines of the snapshot absent from the current content.
pub open spec fn diff_spec(old: Option<Seq<u8>>, current: Option<Seq<u8>>) -> (nat, nat) {
    (count_absent(lines_of(current), lines_of(old)), count_absent(lines_of(old), lines_of(current)))
}

/// Number of `\n` bytes in `data`.
pub open spec fn newline_count(data: Seq<u8>) -> nat
    decreases data.len(),
{
    if data.len() == 0 {
        0
    } else {
        newline_count(data.drop_last()) + if data.last() == 10u8 { 1nat } else { 0nat }
    }
}

/// How many lines a file has: one more than its `\n` bytes; none when the
/// file is missing.
pub open spec fn line_count(c: Option<Seq<u8>>) -> nat {
    match c {
        Some(b) => newline_count(b) + 1,
        None => 0,
    }
}

proof fn lemma_split_count(data: Seq<u8>)
    ensures
        split_newlines(data).len() == newline_count(data) + 1,
    decreases data.len(),
{
    if data.len() > 0 {
        lemma_split_count(data.drop_last());
    }
}

proof fn lemma_lines_len(c: Option<Seq<u8>>)
    ensures
        lines_of(c).len() == line_count(c),
{
    if let Some(b) = c {
        lemma_split_count(b);
    }
}

proof fn lemma_absent_from_nothing(xs: Seq<Seq<u8>>)
    ensures
        count_absent(xs, Seq::empty()) == xs.len(),
    decreases xs.len(),
{
    if xs.len() > 0 {
        lemma_absent_from_nothing(xs.drop_last());
    }
}

proof fn lemma_absent_when_contained(xs: Seq<Seq<u8>>, ys: Seq<Seq<u8>>)
    requires
        forall|k: int| 0 <= k < xs.len() ==> ys.contains(#[trigger] xs[k]),
    ensures
        count_absent(xs, ys) == 0,
    decreases xs.len(),
{
    if xs.len() > 0 {
        let w = xs.drop_last();
        assert forall|k: int| 0 <= k < w.len() implies ys.contains(#[trigger] w[k]) by {
            assert(w[k] == xs[k]);
        }
        lemma_absent_when_contained(w, ys);
        assert(ys.contains(xs[xs.len() - 1]));
    }
}

/// The changes reported for a file: a file deleted since its snapshot has
/// every one of its lines removed and none added; a file created since has
/// every line added and none removed; an unchanged file has no change; and
/// no count exceeds the lines it is taken from.
pub proof fn law_diff_line_counts(old: Option<Seq<u8>>, current: Option<Seq<u8>>)
    ensures
        diff_spec(old, None) == (0nat, line_count(old)),
        diff_spec(None, current) == (line_count(current), 0nat),
        diff_spec(current, current) == (0nat, 0nat),
        diff_spec(old, current).0 <= line_count(current),
        diff_spec(old, current).1 <= line_count(old),
{
    lemma_lines_len(old);
    lemma_lines_len(current);
    assert(lines_of(None) =~= Seq::<Seq<u8>>::empty());
    lemma_absent_from_nothing(lines_of(old));
    lemma_absent_from_nothing(lines_of(current));
    let cl = lines_of(current);
    assert forall|k: int| 0 <= k < cl.len() implies cl.contains(#[trigger] cl[k]) by {}
    lemma_absent_when_contained(cl, cl);
    lemma_count_absent_bound(lines_of(current), lines_of(old));
    lemma_count_absent_bound(lines_of(old), lines_of(current));
}

fn bytes_eq(a: &Vec<u8>, b: &Vec<u8>) -> (r: bool)
    ensures
        r == (a@ == b@),
{
    if a.len() != b.len() {
        return false;
    }
    let mut i: usize = 0;
    while i < a.len()
        invariant
            a@.len() == b@.len(),
            i <= a@.len(),
            forall|k: int| 0 <= k < i ==> a@[k] == b@[k],
        decreases a@.len() - i,
    {
        if a[i] != b[i] {
            assert(a@[i as int] != b@[i as int]);
            return false;
        }
        i = i + 1;
    }
    assert(a@ =~= b@);
    true
}

pub open spec fn lines_view(v: Seq<Vec<u8>>) -> Seq<Seq<u8>> {
    v.map_values(|l: Vec<u8>| l@)
}

/// The lines of `data`, split at `\n` with a trailing `\r` removed.
pub fn split_lines(data: &[u8]) -> (r: Vec<Vec<u8>>)
    ensures
        lines_view(r@) == split_newlines(data@).map_values(|l: Seq<u8>| chomp_cr(l)),
{
    let mut raw: Vec<Vec<u8>> = Vec::new();
    let mut cur: Vec<u8> = Vec::new();
    let mut i: usize = 0;
    assert(data@.take(0) =~= Seq::<u8>::empty());
    assert(lines_view(raw@).push(cur@) =~= split_newlines(data@.take(0)));
    while i < data.len()
        invariant
            i <= data@.len(),
            lines_view(raw@).push(cur@) == split_newlines(data@.take(i as int)),
        decreases data@.len() - i,
    {
        let b = data[i];
        let ghost pre = data@.take(i as int);
        assert(data@.take(i + 1).drop_last() =~= pre);
        assert(data@.take(i + 1).last() == b);
        proof {
            lemma_split_nonempty(pre);
        }
        if b == 10u8 {
            let ghost r0 = raw@;
            let done = cur;
            raw.push(done);
            cur = Vec::new();
            assert(lines_view(raw@) =~= lines_view(r0).push(done@));
            assert(lines_view(raw@).push(cur@) =~= split_newlines(pre).push(Seq::<u8>::empty()));
        } else {
            let ghost c0 = cur@;
            cur.push(b);
            assert(lines_view(raw@).push(cur@) =~= split_newlines(pre).update(
                split_newlines(pre).len() - 1,
                c0.push(b),
            ));
        }
        i = i + 1;
    }
    assert(data@.take(i as int) =~= data@);
    raw.push(cur);
    let mut out: Vec<Vec<u8>> = Vec::new();
    let mut j: usize = 0;
    let ghost sp = split_newlines(data@);
    while j < raw.len()
        invariant
            j <= raw@.len(),
            lines_view(raw@) == sp,
            lines_view(out@) == sp.take(j as int).map_values(|l: Seq<u8>| chomp_cr(l)),
        decreases raw@.len() - j,
    {
        let l = &raw[j];
        assert(l@ == sp[j as int]);
        let mut c: Vec<u8> = Vec::new();
        let n = l.len();
        let keep = if n > 0 && l[n - 1] == 13u8 { n - 1 } else { n };
        let mut k: usize = 0;
        while k < keep
            invariant
                keep <= l@.len(),
                k <= keep,
                c@ == l@.take(k as int),
            decreases keep - k,
        {
            c.push(l[k]);
            k = k + 1;
            assert(c@ =~= l@.take(k as int));
        }
        assert(c@ =~= chomp_cr(l@));
        let ghost o0 = out@;
        out.push(c);
        assert(lines_view(out@) =~= lines_view(o0).push(c@));
        assert(sp.take(j + 1).map_values(|l: Seq<u8>| chomp_cr(l)) =~= sp.take(j as int).map_values(
            |l: Seq<u8>| chomp_cr(l),
        ).push(chomp_cr(sp[j as int])));
        j = j + 1;
    }
    assert(sp.take(j as int) =~= sp);
    out
}

fn lines_contain(ys: &Vec<Vec<u8>>, x: &Vec<u8>) -> (r: bool)
    ensures
        r == lines_view(ys@).contains(x@),
{
    let mut i: usize = 0;
    while i < ys.len()
        invariant
            i <= ys@.len(),
            forall|k: int| 0 <= k < i ==> ys@[k]@ != x@,
        decreases ys@.len() - i,
    {
        if bytes_eq(&ys[i], x) {
            assert(lines_view(ys@)[i as int] == x@);
            return true;
        }
        i = i + 1;
    }
    assert(!lines_view(ys@).contains(x@)) by {
        if lines_view(ys@).contains(x@) {
            let k = choose|k: int| 0 <= k < lines_view(ys@).len() && lines_view(ys@)[k] == x@;
            assert(ys@[k]@ == x@);
        }
    }
    false
}

fn count_absent_exec(xs: &Vec<Vec<u8>>, ys: &Vec<Vec<u8>>) -> (n: usize)
    ensures
        n == count_absent(lines_view(xs@), lines_view(ys@)),
{
    let mut n: usize = 0;
    let mut i: usize = 0;
    while i < xs.len()
        invariant
            i <= xs@.len(),
            n <= i,
            n == count_absent(lines_view(xs@).take(i as int), lines_view(ys@)),
        decreases xs@.len() - i,
    {
        assert(lines_view(xs@).take(i + 1).drop_last() =~= lines_view(xs@).take(i as int));
        if !lines_contain(ys, &xs[i]) {
            n = n + 1;
        }
        i = i + 1;
    }
    assert(lines_view(xs@).take(i as int) =~= lines_view(xs@));
    n
}

/// `(added, removed)` line counts between a snapshot and the current content.
pub fn diff_lines(old: Option<&Vec<u8>>, current: Option<&Vec<u8>>) -> (r: (usize, usize))
    ensures
        r.0 == diff_spec(
            match old { Some(v) => Some(v@), None => None },
            match current { Some(v) => Some(v@), None => None },
        ).0,
        r.1 == diff_spec(
            match old { Some(v) => Some(v@), None => None },
            match current { Some(v) => Some(v@), None => None },
        ).1,
{
    let old_lines = match old {
        Some(b) => split_lines(b.as_slice()),
        None => Vec::new(),
    };
    let cur_lines = match current {
        Some(b) => split_lines(b.as_slice()),
        None => Vec::new(),
    };
    assert(lines_view(Seq::<Vec<u8>>::empty()) =~= Seq::<Seq<u8>>::empty());
    let added = count_absent_exec(&cur_lines, &old_lines);
    let removed = count_absent_exec(&old_lines, &cur_lines);
    (added, removed)
}

/// What `String::from_utf8_lossy` makes of `bytes`.
pub uninterp spec fn utf8_lossy(bytes: Seq<u8>) -> Seq<char>;

/// `String::from_utf8_lossy(bytes)`: the decoded text, with each invalid
/// sequence replaced by U+FFFD; for valid UTF-8 it is the decoded text.
#[verifier::external_body]
pub(crate) fn from_utf8_lossy(bytes: &[u8]) -> (s: String)
    ensures
        s@ == utf8_lossy(bytes@),
        vstd::utf8::valid_utf8(bytes@) ==> s@ == vstd::utf8::decode_utf8(bytes@),
{
    String::from_utf8_lossy(bytes).to_string()
}

/// One entry of the pending-change list.
pub open spec fn change_entry(
    s: SnapView,
    current: Option<Seq<u8>>,
    e: (String, usize, usize, Option<String>),
) -> bool {
    &&& e.0@ == s.0
    &&& e.1 == diff_spec(s.1, current).0
    &&& e.2 == diff_spec(s.1, current).1
    &&& match s.1 {
        Some(b) => e.3 matches Some(t) && t@ == utf8_lossy(b),
        None => e.3 is None,
    }
}

impl FileCheckpointer {
    /// The changes since the latest checkpoint: for each of its snapshots,
    /// `(path, added_lines, removed_lines, original_text)`, given in
    /// `current[i]` what the `i`-th snapshotted file holds now. Empty when
    /// there is no checkpoint.
    pub fn get_file_changes(&self, current: &Vec<Option<Vec<u8>>>) -> (r: Vec<(String, usize, usize, Option<String>)>)
        requires
            self@.len() > 0 ==> current@.len() == self@.last().1.len(),
        ensures
            self@.len() == 0 ==> r@.len() == 0,
            self@.len() > 0 ==> r@.len() == self@.last().1.len() && forall|i: int|
                0 <= i < r@.len() ==> change_entry(
                    self@.last().1[i],
                    bytes_view(current@[i]),
                    #[trigger] r@[i],
                ),
    {
        let mut r: Vec<(String, usize, usize, Option<String>)> = Vec::new();
        let n = self.checkpoints.len();
        if n == 0 {
            return r;
        }
        let cp = &self.checkpoints[n - 1];
        assert(self@.last() == cp_view(*cp));
        let mut i: usize = 0;
        while i < cp.files.len()
            invariant
                cp_view(*cp) == self@.last(),
                current@.len() == cp.files@.len(),
                i <= cp.files@.len(),
                r@.len() == i,
                forall|k: int|
                    0 <= k < i ==> change_entry(
                        cp_view(*cp).1[k],
                        bytes_view(current@[k]),
                        #[trigger] r@[k],
                    ),
            decreases cp.files@.len() - i,
        {
            let snap = &cp.files[i];
            let cur = &current[i];
            let d = diff_lines(
                match &snap.content { Some(v) => Some(v), None => None },
                match cur { Some(v) => Some(v), None => None },
            );
            let original = match &snap.content {
                Some(b) => Some(from_utf8_lossy(b.as_slice())),
                None => None,
            };
            r.push((snap.path.clone(), d.0, d.1, original));
            i = i + 1;
        }
        r
    }
}

/// Snapshotting a path twice keeps the first snapshot: the second record is
/// a no-op.
pub proof fn law_snapshot_keeps_earliest(
    v: Seq<CheckpointView>,
    path: Seq<char>,
    first: Option<Seq<u8>>,
    second: Option<Seq<u8>>,
)
    ensures
        record_latest(record_latest(v, (path, first)), (path, second)) == record_latest(
            v,
            (path, first),
        ),
{
    let w = record_latest(v, (path, first));
    if v.len() > 0 {
        let files = w.last().1;
        if has_path(v.last().1, path) {
            assert(has_path(files, path));
        } else {
            assert(files[files.len() - 1].0 == path);
            assert(has_path(files, path));
        }
        assert(w.update(w.len() - 1, (w.last().0, add_if_absent(w.last().1, (path, second))))
            =~= w);
    }
}

/// Undo right after opening a checkpoint hands back that (empty) checkpoint
/// and leaves exactly the earlier checkpoints with a smaller message index.
pub proof fn law_undo_after_create(v: Seq<CheckpointView>, message_index: usize)
    ensures
        v.push((message_index, Seq::<SnapView>::empty())).last() == (
            message_index,
            Seq::<SnapView>::empty(),
        ),
        after_pop(v.push((message_index, Seq::<SnapView>::empty()))) == v.filter(
            |c: CheckpointView| c.0 < message_index,
        ),
{
    assert(v.push((message_index, Seq::<SnapView>::empty())).drop_last() =~= v);
}

proof fn lemma_filter_keeps_all(v: Seq<CheckpointView>, i: usize)
    requires
        forall|k: int| 0 <= k < v.len() ==> (#[trigger] v[k]).0 < i,
    ensures
        v.filter(|c: CheckpointView| c.0 < i) == v,
    decreases v.len(),
{
    reveal_with_fuel(Seq::filter, 1);
    if v.len() > 0 {
        let w = v.drop_last();
        assert forall|k: int| 0 <= k < w.len() implies (#[trigger] w[k]).0 < i by {
            assert(w[k] == v[k]);
        }
        lemma_filter_keeps_all(w, i);
        assert(v.last() == v[v.len() - 1]);
        assert(w.push(v.last()) =~= v);
    } else {
        assert(v.filter(|c: CheckpointView| c.0 < i) =~= v);
    }
}

/// Opening a checkpoint after all existing ones and undoing it at once
/// hands back that checkpoint with nothing to write back, and leaves the
/// checkpoints exactly as they were.
pub proof fn law_create_then_undo_restores(v: Seq<CheckpointView>, message_index: usize)
    requires
        forall|k: int| 0 <= k < v.len() ==> (#[trigger] v[k]).0 < message_index,
    ensures
        v.push((message_index, Seq::<SnapView>::empty())).last().1.len() == 0,
        v.push((message_index, Seq::<SnapView>::empty())).last().0 == message_index,
        after_pop(v.push((message_index, Seq::<SnapView>::empty()))) == v,
{
    law_undo_after_create(v, message_index);
    lemma_filter_keeps_all(v, message_index);
}

/// Recording files in one batch is recording them one at a time: a batch of
/// one is a single snapshot, and a batch split in two is the first part
/// followed by the second.
pub proof fn law_batch_is_one_by_one(v: Seq<CheckpointView>, a: Seq<SnapView>, b: Seq<SnapView>, s: SnapView)
    ensures
        record_all(v, seq![s]) == record_latest(v, s),
        record_all(v, a + b) == record_all(record_all(v, a), b),
    decreases b.len(),
{
    assert(seq![s].drop_last() =~= Seq::<SnapView>::empty());
    assert(record_all(v, Seq::<SnapView>::empty()) == v);
    assert(record_all(v, seq![s]) == record_latest(record_all(v, seq![s].drop_last()), seq![s].last()));
    if b.len() == 0 {
        assert(a + b =~= a);
    } else {
        law_batch_is_one_by_one(v, a, b.drop_last(), s);
        assert((a + b).drop_last() =~= a + b.drop_last());
        assert((a + b).last() == b.last());
    }
}

/// After an undo, every remaining checkpoint lies strictly before the undone
/// one, and there is at least one checkpoint fewer.
pub proof fn law_undo_drops_later(v: Seq<CheckpointView>)
    requires
        v.len() > 0,
    ensures
        forall|i: int| 0 <= i < after_pop(v).len() ==> (#[trigger] after_pop(v)[i]).0 < v.last().0,
        after_pop(v).len() < v.len(),
{
    let p = |c: CheckpointView| c.0 < v.last().0;
    v.drop_last().lemma_filter_len(p);
    assert forall|i: int| 0 <= i < after_pop(v).len() implies (#[trigger] after_pop(v)[i]).0
        < v.last().0 by {
        v.drop_last().lemma_filter_pred(p, i);
    }
}


/// Some snapshot in `snaps` differs from what its file holds now (`current[i]`
/// for the `i`-th snapshot).
pub open spec fn snapshots_differ(snaps: Seq<SnapView>, current: Seq<Option<Seq<u8>>>) -> bool {
    exists|i: int| 0 <= i < snaps.len() && (#[trigger] snaps[i]).1 != current[i]
}

fn opt_bytes_eq(a: &Option<Vec<u8>>, b: &Option<Vec<u8>>) -> (r: bool)
    ensures
        r == (bytes_view(*a) == bytes_view(*b)),
{
    match (a, b) {
        (Some(x), Some(y)) => bytes_eq(x, y),
        (None, None) => true,
        _ => false,
    }
}

/// Whether the files of `snaps` changed since they were taken, given what
/// each holds now.
pub fn snapshots_changed(snaps: &[FileSnapshot], current: &[Option<Vec<u8>>]) -> (r: bool)
    requires
        current@.len() == snaps@.len(),
    ensures
        r == snapshots_differ(files_view(snaps@), current@.map_values(|c: Option<Vec<u8>>| bytes_view(c))),
{
    let ghost fv = files_view(snaps@);
    let ghost cv = current@.map_values(|c: Option<Vec<u8>>| bytes_view(c));
    let mut i: usize = 0;
    while i < snaps.len()
        invariant
            fv == files_view(snaps@),
            cv == current@.map_values(|c: Option<Vec<u8>>| bytes_view(c)),
            current@.len() == snaps@.len(),
            i <= snaps@.len(),
            forall|k: int| 0 <= k < i ==> (#[trigger] fv[k]).1 == cv[k],
        decreases snaps@.len() - i,
    {
        if !opt_bytes_eq(&current[i], &snaps[i].content) {
            assert(fv[i as int].1 != cv[i as int]);
            return true;
        }
        i = i + 1;
    }
    false
}

/// The user messages of a conversation that have content, as
/// `(index, content)` pairs in order.
pub open spec fn rewindable(messages: Seq<LLMMessage>) -> Seq<(int, Seq<char>)>
    decreases messages.len(),
{
    if messages.len() == 0 {
        Seq::empty()
    } else {
        let prev = rewindable(messages.drop_last());
        let m = messages.last();
        if m.role == Role::User && m.content is Some {
            prev.push((messages.len() - 1, m.content->0@))
        } else {
            prev
        }
    }
}

/// Checkpoints and rewind bookkeeping of a conversation whose message list
/// is held by the host.
#[derive(Debug, Clone)]
pub struct RewindManager {
    checkpoints: Vec<Checkpoint>,
    is_rewinding: bool,
}

impl View for RewindManager {
    type V = Seq<CheckpointView>;

    closed spec fn view(&self) -> Seq<CheckpointView> {
        self.checkpoints@.map_values(|c: Checkpoint| cp_view(c))
    }
}

impl RewindManager {
    /// A rewind is in progress; set only while the conversation is being cut.
    pub closed spec fn rewinding(&self) -> bool {
        self.is_rewinding
    }

    pub fn new() -> (m: Self)
        ensures
            m@ == Seq::<CheckpointView>::empty(),
            !m.rewinding(),
    {
        let m = RewindManager { checkpoints: Vec::new(), is_rewinding: false };
        assert(m@ =~= Seq::<CheckpointView>::empty());
        m
    }

    /// All checkpoints, oldest first.
    pub fn checkpoints(&self) -> (r: &[Checkpoint])
        ensures
            r@.map_values(|c: Checkpoint| cp_view(c)) == self@,
    {
        self.checkpoints.as_slice()
    }

    /// The paths tracked by the latest checkpoint; a new checkpoint re-reads
    /// exactly these files.
    pub fn latest_paths(&self) -> (r: Vec<String>)
        ensures
            self@.len() == 0 ==> r@.len() == 0,
            self@.len() > 0 ==> r@.len() == self@.last().1.len() && forall|i: int|
                0 <= i < r@.len() ==> (#[trigger] r@[i])@ == self@.last().1[i].0,
    {
        let mut r: Vec<String> = Vec::new();
        let n = self.checkpoints.len();
        if n == 0 {
            return r;
        }
        let cp = &self.checkpoints[n - 1];
        assert(self@.last() == cp_view(*cp));
        let mut i: usize = 0;
        while i < cp.files.len()
            invariant
                cp_view(*cp) == self@.last(),
                i <= cp.files@.len(),
                r@.len() == i,
                forall|k: int| 0 <= k < i ==> (#[trigger] r@[k])@ == cp_view(*cp).1[k].0,
            decreases cp.files@.len() - i,
        {
            r.push(cp.files[i].path.clone());
            i = i + 1;
        }
        r
    }

    /// Open a checkpoint at `message_index` (the current message count)
    /// holding `files`: the files of the previous checkpoint as they are now.
    pub fn create_checkpoint(&mut self, message_index: usize, files: Vec<FileSnapshot>)
        ensures
            final(self)@ == old(self)@.push((message_index, files_view(files@))),
            final(self).rewinding() == old(self).rewinding(),
    {
        self.checkpoints.push(Checkpoint { message_index, files });
        assert(self@ =~= old(self)@.push((message_index, files_view(files@))));
    }

    /// Record `snapshot` into every checkpoint that has no snapshot of its path.
    pub fn add_snapshot(&mut self, snapshot: FileSnapshot)
        ensures
            final(self)@ == old(self)@.map_values(
                |c: CheckpointView| (c.0, add_if_absent(c.1, snap_view(snapshot))),
            ),
            final(self).rewinding() == old(self).rewinding(),
    {
        let ghost target = old(self)@.map_values(
            |c: CheckpointView| (c.0, add_if_absent(c.1, snap_view(snapshot))),
        );
        let mut done: Vec<Checkpoint> = Vec::new();
        let mut i: usize = 0;
        let n = self.checkpoints.len();
        while i < n
            invariant
                n == self.checkpoints@.len(),
                self@ == old(self)@,
                self@.len() == n,
                target == old(self)@.map_values(
                    |c: CheckpointView| (c.0, add_if_absent(c.1, snap_view(snapshot))),
                ),
                target.len() == n,
                i <= n,
                done@.map_values(|c: Checkpoint| cp_view(c)) == target.take(i as int),
            decreases n - i,
        {
            let mut cp = self.checkpoints[i].clone_checkpoint();
            assert(cp_view(cp) == old(self)@[i as int]);
            if contains_path(&cp.files, snapshot.path.as_str()).is_none() {
                let s = snapshot.clone_snapshot();
                let ghost f0 = cp.files@;
                cp.files.push(s);
                assert(files_view(cp.files@) =~= files_view(f0).push(snap_view(snapshot)));
            } else {
                assert(has_path(files_view(cp.files@), snapshot.path@));
            }
            assert(cp_view(cp) == target[i as int]);
            let ghost d0 = done@;
            done.push(cp);
            assert(done@.map_values(|c: Checkpoint| cp_view(c)) =~= d0.map_values(
                |c: Checkpoint| cp_view(c),
            ).push(cp_view(cp)));
            assert(target.take(i + 1) =~= target.take(i as int).push(target[i as int]));
            i = i + 1;
        }
        assert(target.take(i as int) =~= target);
        self.checkpoints = done;
    }

    /// Index of the first checkpoint taken at `message_index`, if any.
    pub fn checkpoint_at(&self, message_index: usize) -> (r: Option<usize>)
        ensures
            r is None ==> forall|i: int| 0 <= i < self@.len() ==> (#[trigger] self@[i]).0 != message_index,
            r matches Some(i) ==> i < self@.len() && self@[i as int].0 == message_index && forall|j: int|
                0 <= j < i ==> (#[trigger] self@[j]).0 != message_index,
    {
        let mut i: usize = 0;
        while i < self.checkpoints.len()
            invariant
                i <= self@.len(),
                self@.len() == self.checkpoints@.len(),
                forall|j: int| 0 <= j < i ==> (#[trigger] self@[j]).0 != message_index,
            decreases self@.len() - i,
        {
            assert(self@[i as int] == cp_view(self.checkpoints@[i as int]));
            if self.checkpoints[i].message_index == message_index {
                return Some(i);
            }
            i = i + 1;
        }
        None
    }

    /// The user messages that can be rewound to: `(index, content)` for each
    /// user message with content.
    pub fn get_rewindable_messages(messages: &[LLMMessage]) -> (r: Vec<(usize, String)>)
        ensures
            r@.len() == rewindable(messages@).len(),
            forall|i: int|
                0 <= i < r@.len() ==> (#[trigger] r@[i]).0 == rewindable(messages@)[i].0 && r@[i].1@
                    == rewindable(messages@)[i].1,
    {
        let mut r: Vec<(usize, String)> = Vec::new();
        let mut i: usize = 0;
        while i < messages.len()
            invariant
                i <= messages@.len(),
                r@.len() == rewindable(messages@.take(i as int)).len(),
                forall|k: int|
                    0 <= k < r@.len() ==> (#[trigger] r@[k]).0 == rewindable(messages@.take(i as int))[k].0
                        && r@[k].1@ == rewindable(messages@.take(i as int))[k].1,
            decreases messages@.len() - i,
        {
            assert(messages@.take(i + 1).drop_last() =~= messages@.take(i as int));
            let m = &messages[i];
            if m.role == Role::User {
                if let Some(c) = &m.content {
                    r.push((i, c.clone()));
                }
            }
            i = i + 1;
        }
        assert(messages@.take(i as int) =~= messages@);
        r
    }

    /// The content of the user message at `message_index`, the target of a
    /// rewind; an error when the index is out of range or not a user message.
    pub fn rewind_target(messages: &[LLMMessage], message_index: usize) -> (r: Result<String, ArrowError>)
        ensures
            message_index >= messages@.len() ==> (r matches Err(ArrowError::Session(m)) && m@
                == "Invalid message index: "@ + decimal(message_index as nat)),
            message_index < messages@.len() && messages@[message_index as int].role != Role::User
                ==> (r matches Err(ArrowError::Session(m)) && m@ == "Message at index "@ + decimal(
                message_index as nat) + " is not a user message"@),
            message_index < messages@.len() && messages@[message_index as int].role == Role::User
                ==> (r matches Ok(c) && c@ == match messages@[message_index as int].content {
                Some(s) => s@,
                None => Seq::<char>::empty(),
            }),
    {
        let idx = decimal_string(message_index as u64);
        if message_index >= messages.len() {
            let m = concat_str("Invalid message index: ", idx.as_str());
            proof {
                reveal_strlit("Invalid message index: ");
            }
            return Err(ArrowError::Session(m));
        }
        let msg = &messages[message_index];
        if msg.role != Role::User {
            let a = concat_str("Message at index ", idx.as_str());
            let m = concat_str(a.as_str(), " is not a user message");
            proof {
                reveal_strlit("Message at index ");
                reveal_strlit(" is not a user message");
            }
            return Err(ArrowError::Session(m));
        }
        match &msg.content {
            Some(c) => Ok(c.clone()),
            None => Ok(String::new()),
        }
    }

    /// Complete a rewind to `message_index`: drop every checkpoint at or
    /// after it and truncate the conversation to its first `message_index`
    /// messages.
    pub fn finish_rewind(&mut self, message_index: usize, messages: &mut Vec<LLMMessage>)
        requires
            message_index < old(messages)@.len(),
        ensures
            final(self)@ == before_index(old(self)@, message_index),
            final(messages)@ == old(messages)@.take(message_index as int),
            !final(self).rewinding(),
    {
        let ghost v = self@;
        let mut kept: Vec<Checkpoint> = Vec::new();
        let mut i: usize = 0;
        while i < self.checkpoints.len()
            invariant
                self@ == v,
                i <= v.len(),
                v.len() == self.checkpoints@.len(),
                kept@.map_values(|c: Checkpoint| cp_view(c)) == v.take(i as int).filter(
                    |c: CheckpointView| c.0 < message_index,
                ),
            decreases v.len() - i,
        {
            proof {
                reveal_with_fuel(Seq::filter, 1);
                assert(v.take(i + 1).drop_last() =~= v.take(i as int));
            }
            assert(v[i as int] == cp_view(self.checkpoints@[i as int]));
            if self.checkpoints[i].message_index < message_index {
                let c = self.checkpoints[i].clone_checkpoint();
                let ghost k0 = kept@;
                kept.push(c);
                assert(kept@.map_values(|c: Checkpoint| cp_view(c)) =~= k0.map_values(
                    |c: Checkpoint| cp_view(c),
                ).push(cp_view(c)));
            }
            i = i + 1;
        }
        assert(v.take(i as int) =~= v);
        self.checkpoints = kept;
        self.is_rewinding = true;
        messages.truncate(message_index);
        self.is_rewinding = false;
    }

    /// Forget every checkpoint (on session switch, clear or compaction),
    /// unless a rewind is in progress.
    pub fn clear_checkpoints(&mut self)
        ensures
            !old(self).rewinding() ==> final(self)@ == Seq::<CheckpointView>::empty(),
            old(self).rewinding() ==> final(self)@ == old(self)@,
            final(self).rewinding() == old(self).rewinding(),
    {
        if !self.is_rewinding {
            self.checkpoints.clear();
            assert(self@ =~= Seq::<CheckpointView>::empty());
        }
    }
}

/// The checkpoints of `v` taken strictly before `message_index`.
pub open spec fn before_index(v: Seq<CheckpointView>, message_index: usize) -> Seq<CheckpointView> {
    v.filter(|c: CheckpointView| c.0 < message_index)
}

/// A rewind keeps only checkpoints before its target, so none remain at or
/// after the message the conversation was cut back to.
pub proof fn law_rewind_drops_later(v: Seq<CheckpointView>, message_index: usize)
    ensures
        forall|i: int|
            0 <= i < before_index(v, message_index).len() ==> (#[trigger] before_index(
                v,
                message_index,
            )[i]).0 < message_index,
{
    let p = |c: CheckpointView| c.0 < message_index;
    assert forall|i: int| 0 <= i < v.filter(p).len() implies (#[trigger] v.filter(p)[i]).0
        < message_index by {
        v.lemma_filter_pred(p, i);
    }
}

} // verus!
