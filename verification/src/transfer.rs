//! The copy and delete jobs.
//!
//! A job decides what is done next and keeps the progress bar; the caller
//! does the work on the file system and tells the job how each step ended.
//! A step that failed ends the job: nothing is retried and nothing is undone.

use crate::text::str_eq;
use crate::ui::{Coalescer, CoalescerView, ProgressBar, ProgressBarView, BAR_WIDTH};
use crate::utils::{
    dir_count, file_count, scan_of, stat_under_policy, total_size, walk_view, SaveStat, WalkItem,
    WalkItemView,
};
use vstd::prelude::*;

verus! {

/// Least time between two drawings of a job's progress bar, in milliseconds.
pub const REDRAW_INTERVAL_MILLIS: u64 = 60;

/// What a copy does with one item of the walk.
#[derive(Clone, Copy, Debug, PartialEq, Eq, Structural)]
pub enum CopyAction {
    /// Create the directory under the destination.
    CreateDir,
    /// Copy the file to the destination.
    CopyFile,
    /// Leave the item out: it is the cache sidecar.
    Skip,
    /// Give up: the walk could not read the item.
    Abort,
}

/// What a copy does with `item`: a directory is created, the cache sidecar
/// is left out, anything else is copied, and an unreadable entry ends the copy.
pub open spec fn action_for(item: WalkItemView, sidecar: Seq<char>) -> CopyAction {
    match item {
        WalkItemView::Dir => CopyAction::CreateDir,
        WalkItemView::File { name, len } => if name == sidecar {
            CopyAction::Skip
        } else {
            CopyAction::CopyFile
        },
        WalkItemView::Other { name } => if name == sidecar {
            CopyAction::Skip
        } else {
            CopyAction::CopyFile
        },
        WalkItemView::Unreadable => CopyAction::Abort,
    }
}

/// The action for each item of a walk.
pub open spec fn plan_for(items: Seq<WalkItemView>, sidecar: Seq<char>) -> Seq<CopyAction> {
    items.map_values(|item: WalkItemView| action_for(item, sidecar))
}

/// Decides what a copy does with `item`.
pub fn plan_item(item: &WalkItem, cache_file_name: &str) -> (action: CopyAction)
    ensures
        action == action_for(item@, cache_file_name@),
{
    match item {
        WalkItem::Dir => CopyAction::CreateDir,
        WalkItem::File { name, len } => if str_eq(name.as_str(), cache_file_name) {
            CopyAction::Skip
        } else {
            CopyAction::CopyFile
        },
        WalkItem::Other { name } => if str_eq(name.as_str(), cache_file_name) {
            CopyAction::Skip
        } else {
            CopyAction::CopyFile
        },
        WalkItem::Unreadable => CopyAction::Abort,
    }
}

/// What the caller of a copy job does next. The number is that of the item
/// in the walk.
#[derive(Clone, Copy, Debug, PartialEq, Eq, Structural)]
pub enum CopyStep {
    /// Create the directory that is item `.0`, re-rooted under the destination.
    CreateDir(usize),
    /// Copy the file that is item `.0` to its place under the destination.
    CopyFile(usize),
    /// Nothing to do for item `.0`; it still counts as progress.
    Skip(usize),
    /// Write these statistics as the destination's sidecar.
    WriteCache(SaveStat),
    /// The copy is complete.
    Finished,
    /// The copy was given up at item `.0`.
    Failed(usize),
}

/// The state of a [`CopyJob`], without its progress bar.
pub struct CopyJobView {
    /// The action for each item of the walk.
    pub plan: Seq<CopyAction>,
    /// The statistics of the source.
    pub stat: SaveStat,
    /// Whether the destination gets a sidecar.
    pub write_dst_cache: bool,
    /// Whether the sidecar has been dealt with.
    pub cache_settled: bool,
    /// Number of items dealt with.
    pub pos: usize,
    /// Whether the step for item `pos` failed.
    pub failed: bool,
}

impl CopyJobView {
    /// What the caller does next.
    pub open spec fn next_step(self) -> CopyStep {
        if self.failed {
            CopyStep::Failed(self.pos)
        } else if self.pos < self.plan.len() {
            match self.plan[self.pos as int] {
                CopyAction::CreateDir => CopyStep::CreateDir(self.pos),
                CopyAction::CopyFile => CopyStep::CopyFile(self.pos),
                CopyAction::Skip => CopyStep::Skip(self.pos),
                CopyAction::Abort => CopyStep::Failed(self.pos),
            }
        } else if self.write_dst_cache && !self.cache_settled {
            CopyStep::WriteCache(self.stat)
        } else {
            CopyStep::Finished
        }
    }

    /// Whether the step at hand, ended with `ok`, counts as progress.
    pub open spec fn advances(self, ok: bool) -> bool {
        match self.next_step() {
            CopyStep::CreateDir(_) | CopyStep::CopyFile(_) => ok,
            CopyStep::Skip(_) => true,
            _ => false,
        }
    }

    /// The job after the step at hand ended with `ok`. A failed creation or
    /// copy ends the job at that item; whether the sidecar could be written
    /// makes no difference.
    pub open spec fn recorded(self, ok: bool) -> CopyJobView {
        match self.next_step() {
            CopyStep::CreateDir(_) | CopyStep::CopyFile(_) => if ok {
                CopyJobView { pos: (self.pos + 1) as usize, ..self }
            } else {
                CopyJobView { failed: true, ..self }
            },
            CopyStep::Skip(_) => CopyJobView { pos: (self.pos + 1) as usize, ..self },
            CopyStep::WriteCache(_) => CopyJobView { cache_settled: true, ..self },
            CopyStep::Finished | CopyStep::Failed(_) => self,
        }
    }
}

impl CopyJobView {
    /// A job for `plan` with nothing done.
    pub open spec fn fresh(plan: Seq<CopyAction>, stat: SaveStat, write_dst_cache: bool) -> CopyJobView {
        CopyJobView { plan, stat, write_dst_cache, cache_settled: false, pos: 0, failed: false }
    }

    /// The job after its steps ended as `outcomes` tells, one after the other.
    pub open spec fn after(self, outcomes: Seq<bool>) -> CopyJobView
        decreases outcomes.len(),
    {
        if outcomes.len() == 0 {
            self
        } else {
            self.after(outcomes.drop_last()).recorded(outcomes.last())
        }
    }
}

/// However the steps of a copy end, the copy deals with the items of the walk
/// in order, never goes past an entry that could not be read or a step that
/// failed, and turns to the sidecar of the destination only when every item
/// has been dealt with.
pub proof fn lemma_copy_run(
    plan: Seq<CopyAction>,
    stat: SaveStat,
    write_dst_cache: bool,
    outcomes: Seq<bool>,
)
    requires
        plan.len() <= usize::MAX,
    ensures
        ({
            let job = CopyJobView::fresh(plan, stat, write_dst_cache).after(outcomes);
            &&& job.plan == plan && job.stat == stat && job.write_dst_cache == write_dst_cache
            &&& job.pos <= plan.len()
            &&& job.pos <= outcomes.len()
            &&& forall|i: int| 0 <= i < job.pos ==> plan[i] != CopyAction::Abort
            &&& job.failed ==> job.pos < plan.len()
            &&& job.cache_settled ==> job.pos == plan.len() && !job.failed && write_dst_cache
        }),
    decreases outcomes.len(),
{
    if outcomes.len() > 0 {
        lemma_copy_run(plan, stat, write_dst_cache, outcomes.drop_last());
    }
}

/// A copy of a tree that could be read, whose steps all succeed, deals with
/// every item and ends: after as many steps as the walk has items, and one
/// more for the sidecar where the destination gets one.
pub proof fn lemma_copy_completes(
    plan: Seq<CopyAction>,
    stat: SaveStat,
    write_dst_cache: bool,
    outcomes: Seq<bool>,
)
    requires
        plan.len() < usize::MAX,
        forall|i: int| 0 <= i < plan.len() ==> plan[i] != CopyAction::Abort,
        forall|j: int| 0 <= j < outcomes.len() ==> outcomes[j],
    ensures
        ({
            let job = CopyJobView::fresh(plan, stat, write_dst_cache).after(outcomes);
            &&& !job.failed
            &&& outcomes.len() <= plan.len() ==> job.pos == outcomes.len() && !job.cache_settled
            &&& outcomes.len() > plan.len() ==> job.pos == plan.len() && job.next_step()
                == CopyStep::Finished
        }),
    decreases outcomes.len(),
{
    if outcomes.len() > 0 {
        let rest = outcomes.drop_last();
        assert forall|j: int| 0 <= j < rest.len() implies rest[j] by {
            assert(rest[j] == outcomes[j]);
        }
        lemma_copy_completes(plan, stat, write_dst_cache, rest);
        lemma_copy_run(plan, stat, write_dst_cache, rest);
        assert(outcomes.last() == outcomes[outcomes.len() - 1]);
        let before = CopyJobView::fresh(plan, stat, write_dst_cache).after(rest);
        if before.pos < plan.len() {
            assert(plan[before.pos as int] != CopyAction::Abort);
        }
    }
}

/// A copy of one directory tree in progress.
pub struct CopyJob {
    plan: Vec<CopyAction>,
    stat: SaveStat,
    write_dst_cache: bool,
    cache_settled: bool,
    pos: usize,
    failed: bool,
    bar: Option<ProgressBar>,
}

impl View for CopyJob {
    type V = CopyJobView;

    closed spec fn view(&self) -> CopyJobView {
        CopyJobView {
            plan: self.plan@,
            stat: self.stat,
            write_dst_cache: self.write_dst_cache,
            cache_settled: self.cache_settled,
            pos: self.pos,
            failed: self.failed,
        }
    }
}

/// The count at which a copy is done: every file that the statistics count
/// and every directory of the walk is one step. Held at `usize::MAX`.
pub open spec fn copy_target(stat: SaveStat, items: Seq<WalkItemView>) -> usize {
    if stat.count + dir_count(items) <= usize::MAX {
        (stat.count + dir_count(items)) as usize
    } else {
        usize::MAX
    }
}

/// The progress bar that a job starts with: none where there is nothing to
/// do, and otherwise an empty bar for `target` steps.
pub open spec fn starting_bar(
    target: usize,
    title: Option<&str>,
    now: u64,
) -> Option<ProgressBarView> {
    if target >= 1 {
        Some(
            ProgressBarView {
                target,
                title: match title {
                    Some(t) => Some(t@),
                    None => None,
                },
                status: 0,
                fill: 0,
                width: BAR_WIDTH,
                redrawn: 1,
                min_interval: Some(REDRAW_INTERVAL_MILLIS),
                last_redraw: now,
                started: now,
            },
        )
    } else {
        None
    }
}

fn start_bar(
    term: &mut Coalescer,
    target: usize,
    title: Option<&str>,
    now_millis: u64,
) -> (bar: Option<ProgressBar>)
    ensures
        bar_view(bar) == starting_bar(target, title, now_millis),
        bar_drawn(starting_bar(target, title, now_millis), old(term)@, final(term)@),
{
    if target >= 1 {
        Some(ProgressBar::new(term, target, title, Some(REDRAW_INTERVAL_MILLIS), now_millis))
    } else {
        None
    }
}

/// Whether `after` is `before` once a bar that may be missing has been
/// drawn: without a bar nothing is written.
pub open spec fn bar_drawn(
    bar: Option<ProgressBarView>,
    before: CoalescerView,
    after: CoalescerView,
) -> bool {
    match bar {
        Some(bar) => bar.drawn_on(before, after),
        None => after == before,
    }
}

/// Whether `after` is `before` once `status` has been reported, at time
/// `now`, to a bar that may be missing: without a bar nothing is written.
pub open spec fn bar_told(
    bar: Option<ProgressBarView>,
    before: CoalescerView,
    after: CoalescerView,
    status: usize,
    now: u64,
) -> bool {
    match bar {
        Some(bar) => bar.reported_on(before, after, status, now),
        None => after == before,
    }
}

/// The state of a bar that may be missing.
pub open spec fn bar_view(bar: Option<ProgressBar>) -> Option<ProgressBarView> {
    match bar {
        Some(bar) => Some(bar@),
        None => None,
    }
}

fn report(bar: &mut Option<ProgressBar>, term: &mut Coalescer, status: usize, now_millis: u64)
    ensures
        bar_view(*final(bar)) == match bar_view(*old(bar)) {
            Some(bar) => Some(bar.updated(status, now_millis)),
            None => None,
        },
        bar_told(bar_view(*old(bar)), old(term)@, final(term)@, status, now_millis),
{
    match bar {
        Some(bar) => {
            bar.update(term, status, now_millis);
        },
        None => {},
    }
}

fn count_dirs(items: &Vec<WalkItem>) -> (n: usize)
    ensures
        n == dir_count(walk_view(items@)),
{
    let ghost walk = walk_view(items@);
    let mut n: usize = 0;
    let mut i: usize = 0;
    while i < items.len()
        invariant
            i <= items.len(),
            walk == walk_view(items@),
            n == dir_count(walk.take(i as int)),
            n <= i,
        decreases items.len() - i,
    {
        proof {
            assert(walk.take(i + 1).drop_last() == walk.take(i as int));
            assert(walk.take(i + 1).last() == items@[i as int]@);
        }
        match &items[i] {
            WalkItem::Dir => {
                n = n + 1;
            },
            _ => {},
        }
        i = i + 1;
    }
    proof {
        assert(walk.take(items.len() as int) == walk);
    }
    n
}

/// Begins the copy of the tree that `items` is a walk of.
///
/// The statistics of the source are the sidecar's, `cached`, where
/// `read_src_cache` is set and the sidecar gave a value, and the scan of the
/// walk otherwise. The progress bar counts files and directories; it is drawn
/// once, empty, unless there is nothing to count.
pub fn copy_dir_with_progress(
    term: &mut Coalescer,
    items: &Vec<WalkItem>,
    cached: Option<SaveStat>,
    cache_file_name: &str,
    read_src_cache: bool,
    write_dst_cache: bool,
    progress_bar_title: Option<&str>,
    now_millis: u64,
) -> (job: CopyJob)
    ensures
        job@ == (CopyJobView {
            plan: plan_for(walk_view(items@), cache_file_name@),
            stat: stat_under_policy(read_src_cache, cached, walk_view(items@), cache_file_name@),
            write_dst_cache,
            cache_settled: false,
            pos: 0,
            failed: false,
        }),
        job.bar() == starting_bar(
            copy_target(job@.stat, walk_view(items@)),
            progress_bar_title,
            now_millis,
        ),
        bar_drawn(job.bar(), old(term)@, final(term)@),
{
    let stat = SaveStat::new(read_src_cache, cached, items, cache_file_name);
    let target = stat.count.saturating_add(count_dirs(items));
    let bar = start_bar(term, target, progress_bar_title, now_millis);
    let mut plan: Vec<CopyAction> = Vec::new();
    let mut i: usize = 0;
    while i < items.len()
        invariant
            i <= items.len(),
            plan@ == plan_for(walk_view(items@), cache_file_name@).take(i as int),
        decreases items.len() - i,
    {
        plan.push(plan_item(&items[i], cache_file_name));
        i = i + 1;
    }
    assert(plan@ =~= plan_for(walk_view(items@), cache_file_name@));
    CopyJob { plan, stat, write_dst_cache, cache_settled: false, pos: 0, failed: false, bar }
}

impl CopyJob {
    /// The state of the job's progress bar, if it has one.
    pub closed spec fn bar(&self) -> Option<ProgressBarView> {
        bar_view(self.bar)
    }

    /// What the caller does next.
    pub fn next_step(&self) -> (step: CopyStep)
        ensures
            step == self@.next_step(),
    {
        if self.failed {
            CopyStep::Failed(self.pos)
        } else if self.pos < self.plan.len() {
            match self.plan[self.pos] {
                CopyAction::CreateDir => CopyStep::CreateDir(self.pos),
                CopyAction::CopyFile => CopyStep::CopyFile(self.pos),
                CopyAction::Skip => CopyStep::Skip(self.pos),
                CopyAction::Abort => CopyStep::Failed(self.pos),
            }
        } else if self.write_dst_cache && !self.cache_settled {
            CopyStep::WriteCache(self.stat)
        } else {
            CopyStep::Finished
        }
    }

    /// Takes note of how the step at hand ended, at time `now_millis`. Where
    /// the step counts as progress, the bar is told the new number of items
    /// dealt with.
    pub fn record(&mut self, term: &mut Coalescer, ok: bool, now_millis: u64)
        ensures
            final(self)@ == old(self)@.recorded(ok),
            old(self)@.advances(ok) ==> final(self).bar() == match old(self).bar() {
                Some(bar) => Some(bar.updated(final(self)@.pos, now_millis)),
                None => None,
            },
            old(self)@.advances(ok) ==> bar_told(
                old(self).bar(),
                old(term)@,
                final(term)@,
                final(self)@.pos,
                now_millis,
            ),
            !old(self)@.advances(ok) ==> final(self).bar() == old(self).bar() && final(term)@
                == old(term)@,
    {
        match self.next_step() {
            CopyStep::CreateDir(_) | CopyStep::CopyFile(_) => {
                if ok {
                    self.advance(term, now_millis);
                } else {
                    self.failed = true;
                }
            },
            CopyStep::Skip(_) => {
                self.advance(term, now_millis);
            },
            CopyStep::WriteCache(_) => {
                self.cache_settled = true;
            },
            CopyStep::Finished | CopyStep::Failed(_) => {},
        }
    }

    fn advance(&mut self, term: &mut Coalescer, now_millis: u64)
        requires
            old(self).pos < old(self).plan.len(),
        ensures
            final(self)@ == (CopyJobView { pos: (old(self)@.pos + 1) as usize, ..old(self)@ }),
            final(self).bar() == match old(self).bar() {
                Some(bar) => Some(bar.updated(final(self)@.pos, now_millis)),
                None => None,
            },
            bar_told(old(self).bar(), old(term)@, final(term)@, final(self)@.pos, now_millis),
    {
        self.pos = self.pos + 1;
        report(&mut self.bar, term, self.pos, now_millis);
    }

    /// The statistics of the source.
    pub fn stat(&self) -> (stat: SaveStat)
        ensures
            stat == self@.stat,
    {
        self.stat
    }

    /// Number of items dealt with.
    pub fn progress(&self) -> (pos: usize)
        ensures
            pos == self@.pos,
    {
        self.pos
    }
}

/// What the destination of a copy holds once every step has been carried
/// out: the directories and the copied files of the source, in the order of
/// the walk.
pub open spec fn copied(items: Seq<WalkItemView>, sidecar: Seq<char>) -> Seq<WalkItemView>
    decreases items.len(),
{
    if items.len() == 0 {
        Seq::empty()
    } else {
        match action_for(items.last(), sidecar) {
            CopyAction::CreateDir | CopyAction::CopyFile => copied(
                items.drop_last(),
                sidecar,
            ).push(items.last()),
            _ => copied(items.drop_last(), sidecar),
        }
    }
}

/// Whether the copy of `item` is an item like it: a directory, or a regular
/// file whose length is known.
pub open spec fn is_plain(item: WalkItemView) -> bool {
    match item {
        WalkItemView::Dir => true,
        WalkItemView::File { name, len } => len is Some,
        _ => false,
    }
}

/// A copy preserves the statistics: for a tree of directories and regular
/// files of known length, the scan of what was copied is the scan of the
/// source.
pub proof fn lemma_copy_preserves_stat(items: Seq<WalkItemView>, sidecar: Seq<char>)
    requires
        forall|i: int| 0 <= i < items.len() ==> is_plain(#[trigger] items[i]),
    ensures
        total_size(copied(items, sidecar), sidecar) == total_size(items, sidecar),
        file_count(copied(items, sidecar), sidecar) == file_count(items, sidecar),
        dir_count(copied(items, sidecar)) == dir_count(items),
        scan_of(copied(items, sidecar), sidecar) == scan_of(items, sidecar),
    decreases items.len(),
{
    if items.len() > 0 {
        let rest = items.drop_last();
        assert forall|i: int| 0 <= i < rest.len() implies is_plain(#[trigger] rest[i]) by {
            assert(rest[i] == items[i]);
        }
        lemma_copy_preserves_stat(rest, sidecar);
        let kept = copied(rest, sidecar);
        assert(is_plain(items[items.len() - 1]));
        match action_for(items.last(), sidecar) {
            CopyAction::CreateDir | CopyAction::CopyFile => {
                assert(kept.push(items.last()).drop_last() == kept);
            },
            _ => {},
        }
    }
}

/// What the caller of a delete job does next. The number is that of the
/// directory in the job's list.
#[derive(Clone, Copy, Debug, PartialEq, Eq, Structural)]
pub enum DeleteStep {
    /// Remove directory `.0` and all that it holds.
    Remove(usize),
    /// Every directory has been removed.
    Finished,
    /// The job was given up at directory `.0`, which could not be removed.
    Failed(usize),
}

/// The state of a [`DeleteJob`], without its progress bar.
pub struct DeleteJobView {
    /// The directories to remove, in order.
    pub paths: Seq<std::path::PathBuf>,
    /// Number of directories removed.
    pub done: usize,
    /// Whether directory `done` could not be removed.
    pub failed: bool,
}

impl DeleteJobView {
    /// What the caller does next.
    pub open spec fn next_step(self) -> DeleteStep {
        if self.failed {
            DeleteStep::Failed(self.done)
        } else if self.done < self.paths.len() {
            DeleteStep::Remove(self.done)
        } else {
            DeleteStep::Finished
        }
    }

    /// The job after the step at hand ended with `ok`.
    pub open spec fn recorded(self, ok: bool) -> DeleteJobView {
        match self.next_step() {
            DeleteStep::Remove(_) => if ok {
                DeleteJobView { done: (self.done + 1) as usize, ..self }
            } else {
                DeleteJobView { failed: true, ..self }
            },
            _ => self,
        }
    }

    /// The job after its steps ended as `outcomes` tells, one after the other.
    pub open spec fn after(self, outcomes: Seq<bool>) -> DeleteJobView
        decreases outcomes.len(),
    {
        if outcomes.len() == 0 {
            self
        } else {
            self.after(outcomes.drop_last()).recorded(outcomes.last())
        }
    }

    /// A job for `paths` with nothing done.
    pub open spec fn fresh(paths: Seq<std::path::PathBuf>) -> DeleteJobView {
        DeleteJobView { paths, done: 0, failed: false }
    }
}

/// The place of the first failure among `outcomes`, or their number where
/// none failed.
pub open spec fn first_failure(outcomes: Seq<bool>) -> int
    decreases outcomes.len(),
{
    if outcomes.len() == 0 {
        0
    } else if first_failure(outcomes.drop_last()) < outcomes.len() - 1 {
        first_failure(outcomes.drop_last())
    } else if outcomes.last() {
        outcomes.len() as int
    } else {
        outcomes.len() - 1
    }
}

/// The first failure is a failure, and nothing before it is.
pub proof fn lemma_first_failure(outcomes: Seq<bool>)
    ensures
        0 <= first_failure(outcomes) <= outcomes.len(),
        forall|i: int| 0 <= i < first_failure(outcomes) ==> outcomes[i],
        first_failure(outcomes) < outcomes.len() ==> !outcomes[first_failure(outcomes)],
    decreases outcomes.len(),
{
    if outcomes.len() > 0 {
        let rest = outcomes.drop_last();
        lemma_first_failure(rest);
        assert forall|i: int| 0 <= i < first_failure(outcomes) implies outcomes[i] by {
            if i < rest.len() {
                assert(rest[i] == outcomes[i]);
            }
        }
    }
}

/// A delete job removes the directories of its list in order and stops at
/// the first that cannot be removed: after any run of steps, exactly the
/// directories before the first failure are removed, the failing one is
/// reported, and the step at hand is never the removal of a directory behind
/// it or outside the list.
pub proof fn lemma_delete_run(paths: Seq<std::path::PathBuf>, outcomes: Seq<bool>)
    requires
        paths.len() <= usize::MAX,
    ensures
        ({
            let job = DeleteJobView::fresh(paths).after(outcomes);
            let k = first_failure(outcomes);
            &&& job.paths == paths
            &&& k < paths.len() && k < outcomes.len() ==> job.done == k && job.failed
                && job.next_step() == DeleteStep::Failed(k as usize)
            &&& k < paths.len() && k == outcomes.len() ==> job.done == k && !job.failed
                && job.next_step() == DeleteStep::Remove(k as usize)
            &&& k >= paths.len() ==> job.done == paths.len() && !job.failed && job.next_step()
                == DeleteStep::Finished
        }),
    decreases outcomes.len(),
{
    lemma_first_failure(outcomes);
    if outcomes.len() > 0 {
        lemma_delete_run(paths, outcomes.drop_last());
        lemma_first_failure(outcomes.drop_last());
    }
}

/// The removal of a list of directory trees in progress.
pub struct DeleteJob {
    paths: Vec<std::path::PathBuf>,
    done: usize,
    failed: bool,
    bar: Option<ProgressBar>,
}

impl View for DeleteJob {
    type V = DeleteJobView;

    closed spec fn view(&self) -> DeleteJobView {
        DeleteJobView { paths: self.paths@, done: self.done, failed: self.failed }
    }
}

/// Begins the removal of the directory trees at `paths`, in that order. The
/// progress bar counts directory trees; it is drawn once, empty, unless the
/// list is empty.
pub fn delete_dirs_with_progress(
    term: &mut Coalescer,
    paths: Vec<std::path::PathBuf>,
    progress_bar_title: Option<&str>,
    now_millis: u64,
) -> (job: DeleteJob)
    ensures
        job@ == DeleteJobView::fresh(paths@),
        job.bar() == starting_bar(paths.len(), progress_bar_title, now_millis),
        bar_drawn(job.bar(), old(term)@, final(term)@),
{
    let bar = start_bar(term, paths.len(), progress_bar_title, now_millis);
    DeleteJob { paths, done: 0, failed: false, bar }
}

impl DeleteJob {
    /// The state of the job's progress bar, if it has one.
    pub closed spec fn bar(&self) -> Option<ProgressBarView> {
        bar_view(self.bar)
    }

    /// What the caller does next.
    pub fn next_step(&self) -> (step: DeleteStep)
        ensures
            step == self@.next_step(),
    {
        if self.failed {
            DeleteStep::Failed(self.done)
        } else if self.done < self.paths.len() {
            DeleteStep::Remove(self.done)
        } else {
            DeleteStep::Finished
        }
    }

    /// The directory with the number `index`, if the list has one.
    pub fn path(&self, index: usize) -> (path: Option<&std::path::PathBuf>)
        ensures
            index < self@.paths.len() ==> (path matches Some(found) && *found
                == self@.paths[index as int]),
            index >= self@.paths.len() ==> path is None,
    {
        if index < self.paths.len() {
            Some(&self.paths[index])
        } else {
            None
        }
    }

    /// Takes note of how the removal at hand ended, at time `now_millis`. A
    /// removal that succeeded is progress, and the bar is told of it; one that
    /// failed ends the job, and no directory behind it is touched.
    pub fn record(&mut self, term: &mut Coalescer, ok: bool, now_millis: u64)
        ensures
            final(self)@ == old(self)@.recorded(ok),
            old(self)@.next_step() is Remove && ok ==> final(self).bar() == match old(
                self,
            ).bar() {
                Some(bar) => Some(bar.updated(final(self)@.done, now_millis)),
                None => None,
            } && bar_told(
                old(self).bar(),
                old(term)@,
                final(term)@,
                final(self)@.done,
                now_millis,
            ),
            !(old(self)@.next_step() is Remove && ok) ==> final(self).bar() == old(self).bar()
                && final(term)@ == old(term)@,
    {
        if !self.failed && self.done < self.paths.len() {
            if ok {
                self.done = self.done + 1;
                report(&mut self.bar, term, self.done, now_millis);
            } else {
                self.failed = true;
            }
        }
    }

    /// Number of directories removed.
    pub fn progress(&self) -> (done: usize)
        ensures
            done == self@.done,
    {
        self.done
    }
}

} // verus!
