//! Progress and discovery reporting while a committed source projection is published to the
//! folder browser.
//!
//! Publishing walks the projected folder tree depth first: it opens a snapshot of each folder,
//! then records each child folder followed by that child's own subtree, then records the
//! folder's files. Every recorded folder or file advances the completed count; progress is
//! reported for the first item and for every 64th (and for a count of zero). Cancellation is
//! checked before each folder's snapshot, before each child folder and before each file; a
//! check that finds the scan cancelled ends the folder it is made in, and a walk whose checks
//! never find it cancelled reports the whole tree.
//!
//! Paths are held as their UTF-8 text; a folder's id is its path.
use vstd::prelude::*;
use std::sync::atomic::{AtomicBool, Ordering};

verus! {

/// Progress is reported for the first recorded item and for every multiple of this count.
pub const PROGRESS_REPORT_INTERVAL: usize = 64;

/// What a folder scan was asked to do.
#[derive(Clone, Debug, PartialEq, Eq)]
pub struct FolderScanRequest {
    pub task_id: u64,
    pub source_id: String,
    pub label: String,
    pub root: String,
    pub database_root: String,
}

#[derive(Clone, Copy, Debug, PartialEq, Eq, Structural)]
pub enum FolderScanLifecycle {
    Scanning,
}

/// One progress report.
#[derive(Clone, Debug, PartialEq, Eq)]
pub struct FolderScanProgress {
    pub task_id: u64,
    pub source_id: String,
    pub label: String,
    pub lifecycle: FolderScanLifecycle,
    pub completed: usize,
    pub total: usize,
    pub detail: String,
}

#[verifier::ext_equal]
pub struct ProgressModel {
    pub task_id: u64,
    pub source_id: Seq<char>,
    pub label: Seq<char>,
    pub lifecycle: FolderScanLifecycle,
    pub completed: usize,
    pub total: usize,
    pub detail: Seq<char>,
}

impl View for FolderScanProgress {
    type V = ProgressModel;

    open spec fn view(&self) -> ProgressModel {
        ProgressModel {
            task_id: self.task_id,
            source_id: self.source_id@,
            label: self.label@,
            lifecycle: self.lifecycle,
            completed: self.completed,
            total: self.total,
            detail: self.detail@,
        }
    }
}

impl FolderScanProgress {
    pub fn new(
        task_id: u64,
        source_id: String,
        label: String,
        lifecycle: FolderScanLifecycle,
        completed: usize,
        total: usize,
        detail: String,
    ) -> (progress: Self)
        ensures
            progress@ == (ProgressModel {
                task_id,
                source_id: source_id@,
                label: label@,
                lifecycle,
                completed,
                total,
                detail: detail@,
            }),
    {
        FolderScanProgress { task_id, source_id, label, lifecycle, completed, total, detail }
    }
}

/// A file of the projected tree.
#[derive(Clone, Debug, PartialEq, Eq)]
pub struct FileEntry {
    pub id: String,
    pub name: String,
}

#[verifier::ext_equal]
pub struct FileModel {
    pub id: Seq<char>,
    pub name: Seq<char>,
}

impl View for FileEntry {
    type V = FileModel;

    open spec fn view(&self) -> FileModel {
        FileModel { id: self.id@, name: self.name@ }
    }
}

fn copy_file(file: &FileEntry) -> (copy: FileEntry)
    ensures
        copy@ == file@,
{
    FileEntry { id: file.id.clone(), name: file.name.clone() }
}

/// What a discovery announces.
#[derive(Clone, Debug, PartialEq, Eq)]
pub enum FolderScanItem {
    /// A placeholder for the folder at this path.
    Folder(String),
    File(FileEntry),
    /// The folder's listing starts over.
    ResetFolder,
}

pub enum ItemModel {
    Folder(Seq<char>),
    File(FileModel),
    ResetFolder,
}

impl View for FolderScanItem {
    type V = ItemModel;

    open spec fn view(&self) -> ItemModel {
        match self {
            FolderScanItem::Folder(path) => ItemModel::Folder(path@),
            FolderScanItem::File(file) => ItemModel::File(file@),
            FolderScanItem::ResetFolder => ItemModel::ResetFolder,
        }
    }
}

/// One discovery published to the browser.
#[derive(Clone, Debug, PartialEq, Eq)]
pub struct FolderScanDiscovery {
    pub task_id: u64,
    pub source_id: String,
    pub committed_revision: Option<u64>,
    pub parent_id: String,
    pub item: FolderScanItem,
}

#[verifier::ext_equal]
pub struct DiscoveryModel {
    pub task_id: u64,
    pub source_id: Seq<char>,
    pub committed_revision: Option<u64>,
    pub parent_id: Seq<char>,
    pub item: ItemModel,
}

impl View for FolderScanDiscovery {
    type V = DiscoveryModel;

    open spec fn view(&self) -> DiscoveryModel {
        DiscoveryModel {
            task_id: self.task_id,
            source_id: self.source_id@,
            committed_revision: self.committed_revision,
            parent_id: self.parent_id@,
            item: self.item@,
        }
    }
}

/// The discovery that restarts the root listing of a scan.
pub fn reset_discovery(request: &FolderScanRequest, revision: Option<u64>) -> (discovery:
    FolderScanDiscovery)
    ensures
        discovery@ == (DiscoveryModel {
            task_id: request.task_id,
            source_id: request.source_id@,
            committed_revision: revision,
            parent_id: request.root@,
            item: ItemModel::ResetFolder,
        }),
{
    FolderScanDiscovery {
        task_id: request.task_id,
        source_id: request.source_id.clone(),
        committed_revision: revision,
        parent_id: request.root.clone(),
        item: FolderScanItem::ResetFolder,
    }
}

/// Whether the root of a provisional listing has been announced.
#[derive(Clone, Copy, Debug, PartialEq, Eq, Default)]
pub struct ProvisionalDiscoveryState {
    pub emitted_root: bool,
}

impl ProvisionalDiscoveryState {
    /// Forget the announced root.
    pub fn clear(&mut self)
        ensures
            !final(self).emitted_root,
    {
        self.emitted_root = false;
    }
}

/// `Path::join`: `name` appended to `base` as a path component.
pub uninterp spec fn path_join(base: Seq<char>, name: Seq<char>) -> Seq<char>;

/// `Path::join` followed by `Path::display`; the contract names the result and says nothing
/// more of it.
#[verifier::external_body]
fn join_path(base: &String, name: &String) -> (joined: String)
    ensures
        joined@ == path_join(base@, name@),
{
    std::path::Path::new(base).join(name).display().to_string()
}

/// Items recorded so far.
#[derive(Clone, Copy, Debug, PartialEq, Eq)]
pub struct ScanProgressCounter {
    pub completed: usize,
    pub files: usize,
    pub folders: usize,
}

/// One step of the publishing walk.
pub enum ScanStep {
    SnapshotStart { folder_id: Seq<char> },
    Folder { path: Seq<char>, parent_id: Seq<char> },
    File { path: Seq<char>, parent_id: Seq<char>, file: FileModel },
}

/// What the context has reported so far.
#[verifier::ext_equal]
pub struct ReportModel {
    pub counter: ScanProgressCounter,
    pub progress: Seq<ProgressModel>,
    pub discovered: Seq<DiscoveryModel>,
}

/// The fixed part of a context: whose scan it reports and whether discoveries are published.
pub struct ReportConfig {
    pub task_id: u64,
    pub source_id: Seq<char>,
    pub label: Seq<char>,
    pub publish_discoveries: bool,
    pub committed_revision: Option<u64>,
}

pub open spec fn reported_progress(config: ReportConfig, completed: usize, detail: Seq<char>) -> ProgressModel {
    ProgressModel {
        task_id: config.task_id,
        source_id: config.source_id,
        label: config.label,
        lifecycle: FolderScanLifecycle::Scanning,
        completed,
        total: 0,
        detail,
    }
}

pub open spec fn announced(config: ReportConfig, parent_id: Seq<char>, item: ItemModel) -> DiscoveryModel {
    DiscoveryModel {
        task_id: config.task_id,
        source_id: config.source_id,
        committed_revision: config.committed_revision,
        parent_id,
        item,
    }
}

/// Whether the `completed`-th item is reported.
pub open spec fn reports_at(completed: usize) -> bool {
    completed == 1 || completed % PROGRESS_REPORT_INTERVAL == 0
}

/// Record one folder or file: count it, report progress when due, announce it when
/// discoveries are published.
pub open spec fn record_item(
    config: ReportConfig,
    report: ReportModel,
    counter: ScanProgressCounter,
    path: Seq<char>,
    parent_id: Seq<char>,
    item: ItemModel,
) -> ReportModel {
    ReportModel {
        counter,
        progress: if reports_at(counter.completed) {
            report.progress.push(reported_progress(config, counter.completed, path))
        } else {
            report.progress
        },
        discovered: if config.publish_discoveries {
            report.discovered.push(announced(config, parent_id, item))
        } else {
            report.discovered
        },
    }
}

pub open spec fn apply_step(config: ReportConfig, report: ReportModel, step: ScanStep) -> ReportModel {
    match step {
        ScanStep::SnapshotStart { folder_id } => ReportModel {
            discovered: if config.publish_discoveries {
                report.discovered.push(announced(config, folder_id, ItemModel::ResetFolder))
            } else {
                report.discovered
            },
            ..report
        },
        ScanStep::Folder { path, parent_id } => record_item(
            config,
            report,
            ScanProgressCounter {
                completed: (report.counter.completed + 1) as usize,
                folders: (report.counter.folders + 1) as usize,
                ..report.counter
            },
            path,
            parent_id,
            ItemModel::Folder(path),
        ),
        ScanStep::File { path, parent_id, file } => record_item(
            config,
            report,
            ScanProgressCounter {
                completed: (report.counter.completed + 1) as usize,
                files: (report.counter.files + 1) as usize,
                ..report.counter
            },
            path,
            parent_id,
            ItemModel::File(file),
        ),
    }
}


/// The report after the steps, applied in order.
pub open spec fn apply_steps(config: ReportConfig, report: ReportModel, steps: Seq<ScanStep>) -> ReportModel
    decreases steps.len(),
{
    if steps.len() == 0 {
        report
    } else {
        apply_step(config, apply_steps(config, report, steps.drop_last()), steps.last())
    }
}

/// Applying two runs of steps is applying their concatenation.
pub proof fn lemma_apply_steps_concat(
    config: ReportConfig,
    report: ReportModel,
    first: Seq<ScanStep>,
    second: Seq<ScanStep>,
)
    ensures
        apply_steps(config, report, first + second) == apply_steps(
            config,
            apply_steps(config, report, first),
            second,
        ),
    decreases second.len(),
{
    if second.len() == 0 {
        assert(first + second =~= first);
    } else {
        lemma_apply_steps_concat(config, report, first, second.drop_last());
        assert((first + second).drop_last() =~= first + second.drop_last());
        assert((first + second).last() == second.last());
    }
}

/// A folder of the projected tree.
#[derive(Debug)]
pub struct FolderEntry {
    pub id: String,
    pub name: String,
    pub children: Vec<FolderEntry>,
    pub files: Vec<FileEntry>,
}

/// Whether the first cancellation check of `checks` finds the scan cancelled; a check past
/// the end finds it running.
pub open spec fn cancelled_first(checks: Seq<bool>) -> bool {
    checks.len() > 0 && checks[0]
}

/// The checks after the first `used`.
pub open spec fn checks_after(checks: Seq<bool>, used: nat) -> Seq<bool> {
    if used <= checks.len() {
        checks.subrange(used as int, checks.len() as int)
    } else {
        Seq::empty()
    }
}

/// The steps of publishing `folder` while the cancellation checks answer `checks` in turn,
/// and the number of checks made. The folder's snapshot starts, then each child folder is
/// recorded and published, then each file is recorded; a check before the snapshot, before a
/// child and before a file stops the folder when it finds the scan cancelled.
pub open spec fn folder_walk(folder: FolderEntry, checks: Seq<bool>) -> (Seq<ScanStep>, nat)
    decreases folder, 2int, 0int,
{
    if cancelled_first(checks) {
        (Seq::empty(), 1)
    } else {
        let rest = children_walk(folder, 0, checks_after(checks, 1));
        (seq![ScanStep::SnapshotStart { folder_id: folder.id@ }] + rest.0, 1 + rest.1)
    }
}

/// The steps from the `index`-th child folder of `folder` on, followed by its files.
pub open spec fn children_walk(folder: FolderEntry, index: int, checks: Seq<bool>) -> (
    Seq<ScanStep>,
    nat,
)
    decreases folder, 1int, folder.children@.len() - index,
{
    if index < 0 || index >= folder.children@.len() {
        files_walk(folder, 0, checks)
    } else if cancelled_first(checks) {
        (Seq::empty(), 1)
    } else {
        let child = folder.children@[index];
        let inner = folder_walk(child, checks_after(checks, 1));
        let rest = children_walk(folder, index + 1, checks_after(checks, 1 + inner.1));
        (
            seq![ScanStep::Folder { path: child.id@, parent_id: folder.id@ }] + inner.0 + rest.0,
            1 + inner.1 + rest.1,
        )
    }
}

/// The steps from the `index`-th file of `folder` on.
pub open spec fn files_walk(folder: FolderEntry, index: int, checks: Seq<bool>) -> (
    Seq<ScanStep>,
    nat,
)
    decreases folder, 0int, folder.files@.len() - index,
{
    if index < 0 || index >= folder.files@.len() {
        (Seq::empty(), 0)
    } else if cancelled_first(checks) {
        (Seq::empty(), 1)
    } else {
        let file = folder.files@[index];
        let rest = files_walk(folder, index + 1, checks_after(checks, 1));
        (
            seq![
                ScanStep::File {
                    path: path_join(folder.id@, file.name@),
                    parent_id: folder.id@,
                    file: file@,
                },
            ] + rest.0,
            1 + rest.1,
        )
    }
}

/// The number of folders and files below `folder`.
pub open spec fn item_count(folder: FolderEntry) -> nat
    decreases folder, 1int, 0int,
{
    children_count(folder, folder.children@.len() as int) + folder.files@.len()
}

/// The number of folders and files in and below the first `count` child folders.
pub open spec fn children_count(folder: FolderEntry, count: int) -> nat
    decreases folder, 0int, count,
{
    if count <= 0 || count > folder.children@.len() {
        0
    } else {
        children_count(folder, count - 1) + 1 + item_count(folder.children@[count - 1])
    }
}

proof fn lemma_children_count_grows(folder: FolderEntry, count: int, larger: int)
    requires
        0 <= count <= larger <= folder.children@.len(),
    ensures
        children_count(folder, count) <= children_count(folder, larger),
    decreases larger - count,
{
    if count < larger {
        lemma_children_count_grows(folder, count, larger - 1);
    }
}

/// Room in every counter for `items` more.
pub open spec fn counter_room(counter: ScanProgressCounter, items: nat) -> bool {
    &&& counter.completed + items <= usize::MAX
    &&& counter.files + items <= usize::MAX
    &&& counter.folders + items <= usize::MAX
}

/// No counter moved back, and none moved by more than `items`.
pub open spec fn counter_within(after: ScanProgressCounter, before: ScanProgressCounter, items: nat) -> bool {
    &&& before.completed <= after.completed <= before.completed + items
    &&& before.files <= after.files <= before.files + items
    &&& before.folders <= after.folders <= before.folders + items
}

/// A walk whose checks all find the scan running publishes the whole tree.
pub proof fn lemma_uncancelled_walk_is_complete(folder: FolderEntry, checks: Seq<bool>)
    requires
        forall|i: int| 0 <= i < checks.len() ==> !checks[i],
    ensures
        folder_walk(folder, checks).0 == folder_walk(folder, Seq::empty()).0,
    decreases folder, 2int, 0int,
{
    lemma_uncancelled_children(folder, 0, checks_after(checks, 1));
    assert(checks_after(Seq::<bool>::empty(), 1) =~= Seq::<bool>::empty());
}

proof fn lemma_uncancelled_children(folder: FolderEntry, index: int, checks: Seq<bool>)
    requires
        forall|i: int| 0 <= i < checks.len() ==> !checks[i],
    ensures
        children_walk(folder, index, checks).0 == children_walk(folder, index, Seq::empty()).0,
    decreases folder, 1int, folder.children@.len() - index,
{
    if index < 0 || index >= folder.children@.len() {
        lemma_uncancelled_files(folder, 0, checks);
    } else {
        let child = folder.children@[index];
        let empty = Seq::<bool>::empty();
        assert(checks_after(empty, 1) =~= empty);
        let inner = folder_walk(child, checks_after(checks, 1));
        lemma_uncancelled_walk_is_complete(child, checks_after(checks, 1));
        assert(checks_after(empty, 1 + folder_walk(child, empty).1) =~= empty);
        lemma_uncancelled_children(folder, index + 1, checks_after(checks, 1 + inner.1));
    }
}

proof fn lemma_uncancelled_files(folder: FolderEntry, index: int, checks: Seq<bool>)
    requires
        forall|i: int| 0 <= i < checks.len() ==> !checks[i],
    ensures
        files_walk(folder, index, checks).0 == files_walk(folder, index, Seq::empty()).0,
    decreases folder, 0int, folder.files@.len() - index,
{
    if 0 <= index < folder.files@.len() {
        assert(checks_after(Seq::<bool>::empty(), 1) =~= Seq::<bool>::empty());
        lemma_uncancelled_files(folder, index + 1, checks_after(checks, 1));
    }
}


/// Reporting context of one scan.
pub struct ScanProgressContext<'a> {
    pub request: &'a FolderScanRequest,
    pub counter: ScanProgressCounter,
    pub progress: Vec<FolderScanProgress>,
    pub discovered: Vec<FolderScanDiscovery>,
    pub cancel: &'a AtomicBool,
    pub publish_discoveries: bool,
    pub committed_revision: Option<u64>,
}

impl<'a> ScanProgressContext<'a> {
    pub open spec fn config(&self) -> ReportConfig {
        ReportConfig {
            task_id: self.request.task_id,
            source_id: self.request.source_id@,
            label: self.request.label@,
            publish_discoveries: self.publish_discoveries,
            committed_revision: self.committed_revision,
        }
    }

    pub open spec fn report(&self) -> ReportModel {
        ReportModel {
            counter: self.counter,
            progress: self.progress@.map_values(|p: FolderScanProgress| p@),
            discovered: self.discovered@.map_values(|d: FolderScanDiscovery| d@),
        }
    }

    /// The same scan, with everything but the report unchanged.
    pub open spec fn same_scan(&self, other: &Self) -> bool {
        &&& self.request == other.request
        &&& self.cancel == other.cancel
        &&& self.publish_discoveries == other.publish_discoveries
        &&& self.committed_revision == other.committed_revision
    }

    fn push_progress(&mut self, progress: FolderScanProgress)
        ensures
            final(self).same_scan(old(self)),
            final(self).report() == (ReportModel {
                progress: old(self).report().progress.push(progress@),
                ..old(self).report()
            }),
    {
        let ghost before = self.report();
        self.progress.push(progress);
        assert(self.report().progress =~= before.progress.push(progress@));
        assert(self.report().discovered =~= before.discovered);
    }

    fn push_discovery(&mut self, discovery: FolderScanDiscovery)
        ensures
            final(self).same_scan(old(self)),
            final(self).report() == (ReportModel {
                discovered: old(self).report().discovered.push(discovery@),
                ..old(self).report()
            }),
    {
        let ghost before = self.report();
        self.discovered.push(discovery);
        assert(self.report().discovered =~= before.discovered.push(discovery@));
        assert(self.report().progress =~= before.progress);
    }

    fn announce(&mut self, parent_id: &String, item: FolderScanItem)
        ensures
            final(self).same_scan(old(self)),
            final(self).report() == (ReportModel {
                discovered: old(self).report().discovered.push(
                    announced(old(self).config(), parent_id@, item@),
                ),
                ..old(self).report()
            }),
    {
        let discovery = FolderScanDiscovery {
            task_id: self.request.task_id,
            source_id: self.request.source_id.clone(),
            committed_revision: self.committed_revision,
            parent_id: parent_id.clone(),
            item,
        };
        self.push_discovery(discovery);
    }

    /// Report the start of the scan at the source root.
    pub fn report_initial(&mut self)
        ensures
            final(self).same_scan(old(self)),
            final(self).report() == (ReportModel {
                progress: old(self).report().progress.push(
                    reported_progress(old(self).config(), 0, old(self).request.root@),
                ),
                ..old(self).report()
            }),
    {
        let progress = FolderScanProgress::new(
            self.request.task_id,
            self.request.source_id.clone(),
            self.request.label.clone(),
            FolderScanLifecycle::Scanning,
            0,
            0,
            self.request.root.clone(),
        );
        self.push_progress(progress);
    }

    /// Report progress at `path` when the completed count is due for a report.
    pub fn maybe_report_progress(&mut self, path: &String)
        ensures
            final(self).same_scan(old(self)),
            reports_at(old(self).counter.completed) ==> final(self).report() == (ReportModel {
                progress: old(self).report().progress.push(
                    reported_progress(old(self).config(), old(self).counter.completed, path@),
                ),
                ..old(self).report()
            }),
            !reports_at(old(self).counter.completed) ==> final(self).report() == old(
                self,
            ).report(),
    {
        if self.counter.completed == 1 || self.counter.completed % PROGRESS_REPORT_INTERVAL == 0 {
            let progress = FolderScanProgress::new(
                self.request.task_id,
                self.request.source_id.clone(),
                self.request.label.clone(),
                FolderScanLifecycle::Scanning,
                self.counter.completed,
                0,
                path.clone(),
            );
            self.push_progress(progress);
        }
    }

    /// Record a child folder of `parent_id`.
    pub fn record_folder(&mut self, path: &String, parent_id: &String)
        requires
            old(self).counter.completed < usize::MAX,
            old(self).counter.folders < usize::MAX,
        ensures
            final(self).same_scan(old(self)),
            final(self).report() == apply_step(
                old(self).config(),
                old(self).report(),
                ScanStep::Folder { path: path@, parent_id: parent_id@ },
            ),
    {
        self.counter.completed = self.counter.completed + 1;
        self.counter.folders = self.counter.folders + 1;
        self.maybe_report_progress(path);
        if self.publish_discoveries {
            self.announce(parent_id, FolderScanItem::Folder(path.clone()));
        }
    }

    /// Record the start of a folder's snapshot listing.
    pub fn record_folder_snapshot_start(&mut self, folder_id: &String)
        ensures
            final(self).same_scan(old(self)),
            final(self).report() == apply_step(
                old(self).config(),
                old(self).report(),
                ScanStep::SnapshotStart { folder_id: folder_id@ },
            ),
    {
        if self.publish_discoveries {
            self.announce(folder_id, FolderScanItem::ResetFolder);
        }
    }

    /// Record a file of `parent_id`.
    pub fn record_file(&mut self, path: &String, parent_id: &String, file: FileEntry)
        requires
            old(self).counter.completed < usize::MAX,
            old(self).counter.files < usize::MAX,
        ensures
            final(self).same_scan(old(self)),
            final(self).report() == apply_step(
                old(self).config(),
                old(self).report(),
                ScanStep::File { path: path@, parent_id: parent_id@, file: file@ },
            ),
    {
        self.counter.completed = self.counter.completed + 1;
        self.counter.files = self.counter.files + 1;
        self.maybe_report_progress(path);
        if self.publish_discoveries {
            self.announce(parent_id, FolderScanItem::File(file));
        }
    }
}

/// Whether the scan has been cancelled.
fn scan_cancelled(scan: &ScanProgressContext<'_>) -> bool {
    scan.cancel.load(Ordering::Acquire)
}

/// Publish `folder` and everything below it, checking for cancellation before the snapshot,
/// before each child folder and before each file. Returns the answers of the checks and the
/// steps taken.
fn publish_folder(folder: &FolderEntry, scan: &mut ScanProgressContext<'_>) -> (walked: Ghost<
    (Seq<bool>, Seq<ScanStep>),
>)
    requires
        counter_room(old(scan).counter, item_count(*folder)),
    ensures
        final(scan).same_scan(old(scan)),
        final(scan).report() == apply_steps(old(scan).config(), old(scan).report(), walked@.1),
        forall|extra: Seq<bool>| #[trigger]
            folder_walk(*folder, walked@.0 + extra) == (walked@.1, walked@.0.len()),
        counter_within(final(scan).counter, old(scan).counter, item_count(*folder)),
    decreases folder,
{
    let ghost config = scan.config();
    let ghost start = scan.report();
    if scan_cancelled(scan) {
        proof {
            assert forall|extra: Seq<bool>| #[trigger]
                folder_walk(*folder, seq![true] + extra) == (Seq::<ScanStep>::empty(), 1nat) by {
                assert((seq![true] + extra)[0]);
            }
            assert(apply_steps(config, start, Seq::<ScanStep>::empty()) == start);
        }
        return Ghost((seq![true], Seq::empty()));
    }
    let parent_id = folder.id.clone();
    scan.record_folder_snapshot_start(&parent_id);
    let ghost mut checks: Seq<bool> = seq![false];
    let ghost mut steps: Seq<ScanStep> = seq![ScanStep::SnapshotStart { folder_id: folder.id@ }];
    proof {
        assert(steps.drop_last() =~= Seq::<ScanStep>::empty());
        assert(apply_steps(config, start, steps.drop_last()) == start);
        assert(steps.last() == ScanStep::SnapshotStart { folder_id: parent_id@ });
        assert forall|extra: Seq<bool>| #[trigger]
            folder_walk(*folder, checks + extra) == (
                steps + children_walk(*folder, 0, extra).0,
                checks.len() + children_walk(*folder, 0, extra).1,
            ) by {
            assert(!cancelled_first(checks + extra));
            assert(checks_after(checks + extra, 1) =~= extra);
        }
    }
    let mut index: usize = 0;
    while index < folder.children.len()
        invariant
            index <= folder.children@.len(),
            parent_id@ == folder.id@,
            config == old(scan).config(),
            start == old(scan).report(),
            scan.same_scan(old(scan)),
            scan.report() == apply_steps(config, start, steps),
            forall|extra: Seq<bool>| #[trigger]
                folder_walk(*folder, checks + extra) == (
                    steps + children_walk(*folder, index as int, extra).0,
                    checks.len() + children_walk(*folder, index as int, extra).1,
                ),
            counter_room(old(scan).counter, item_count(*folder)),
            counter_within(scan.counter, old(scan).counter, children_count(*folder, index as int)),
        decreases folder.children@.len() - index,
    {
        if scan_cancelled(scan) {
            proof {
                lemma_children_count_grows(*folder, index as int, folder.children@.len() as int);
                assert forall|extra: Seq<bool>| #[trigger]
                    folder_walk(*folder, checks.push(true) + extra) == (steps, checks.len() + 1) by {
                    let shifted = seq![true] + extra;
                    assert(checks.push(true) + extra =~= checks + shifted);
                    assert(cancelled_first(shifted));
                    assert(steps + Seq::<ScanStep>::empty() =~= steps);
                }
            }
            return Ghost((checks.push(true), steps));
        }
        let child = &folder.children[index];
        proof {
            lemma_children_count_grows(*folder, index + 1, folder.children@.len() as int);
        }
        scan.record_folder(&child.id, &parent_id);
        let ghost folder_step = ScanStep::Folder { path: child.id@, parent_id: folder.id@ };
        let ghost after_folder = scan.report();
        let sub = publish_folder(child, scan);
        proof {
            let (sub_checks, sub_steps) = sub@;
            lemma_apply_steps_concat(config, start, steps.push(folder_step), sub_steps);
            assert(steps.push(folder_step).drop_last() =~= steps);
            let old_checks = checks;
            let old_steps = steps;
            checks = checks + seq![false] + sub_checks;
            steps = steps.push(folder_step) + sub_steps;
            assert forall|extra: Seq<bool>| #[trigger]
                folder_walk(*folder, checks + extra) == (
                    steps + children_walk(*folder, index + 1, extra).0,
                    checks.len() + children_walk(*folder, index + 1, extra).1,
                ) by {
                let shifted = seq![false] + sub_checks + extra;
                assert(checks + extra =~= old_checks + shifted);
                assert(!cancelled_first(shifted));
                assert(checks_after(shifted, 1) =~= sub_checks + extra);
                assert(folder_walk(*child, sub_checks + extra) == (sub_steps, sub_checks.len()));
                assert(checks_after(shifted, 1 + sub_checks.len()) =~= extra);
                let rest = children_walk(*folder, index + 1, extra);
                assert(old_steps + (seq![folder_step] + sub_steps + rest.0) =~= steps + rest.0);
            }
        }
        index = index + 1;
    }
    proof {
        assert forall|extra: Seq<bool>| #[trigger]
            folder_walk(*folder, checks + extra) == (
                steps + files_walk(*folder, 0, extra).0,
                checks.len() + files_walk(*folder, 0, extra).1,
            ) by {
            assert(folder_walk(*folder, checks + extra) == (
                steps + children_walk(*folder, index as int, extra).0,
                checks.len() + children_walk(*folder, index as int, extra).1,
            ));
        }
    }
    let mut position: usize = 0;
    while position < folder.files.len()
        invariant
            index == folder.children@.len(),
            position <= folder.files@.len(),
            parent_id@ == folder.id@,
            config == old(scan).config(),
            start == old(scan).report(),
            scan.same_scan(old(scan)),
            scan.report() == apply_steps(config, start, steps),
            forall|extra: Seq<bool>| #[trigger]
                folder_walk(*folder, checks + extra) == (
                    steps + files_walk(*folder, position as int, extra).0,
                    checks.len() + files_walk(*folder, position as int, extra).1,
                ),
            counter_room(old(scan).counter, item_count(*folder)),
            counter_within(
                scan.counter,
                old(scan).counter,
                children_count(*folder, index as int) + position as nat,
            ),
        decreases folder.files@.len() - position,
    {
        if scan_cancelled(scan) {
            proof {
                assert forall|extra: Seq<bool>| #[trigger]
                    folder_walk(*folder, checks.push(true) + extra) == (steps, checks.len() + 1) by {
                    let shifted = seq![true] + extra;
                    assert(checks.push(true) + extra =~= checks + shifted);
                    assert(cancelled_first(shifted));
                    assert(steps + Seq::<ScanStep>::empty() =~= steps);
                }
            }
            return Ghost((checks.push(true), steps));
        }
        let file = &folder.files[position];
        let path = join_path(&folder.id, &file.name);
        scan.record_file(&path, &parent_id, copy_file(file));
        proof {
            let file_step = ScanStep::File {
                path: path_join(folder.id@, file.name@),
                parent_id: folder.id@,
                file: file@,
            };
            assert(steps.push(file_step).drop_last() =~= steps);
            let old_checks = checks;
            let old_steps = steps;
            checks = checks.push(false);
            steps = steps.push(file_step);
            assert forall|extra: Seq<bool>| #[trigger]
                folder_walk(*folder, checks + extra) == (
                    steps + files_walk(*folder, position + 1, extra).0,
                    checks.len() + files_walk(*folder, position + 1, extra).1,
                ) by {
                let shifted = seq![false] + extra;
                assert(checks + extra =~= old_checks + shifted);
                assert(!cancelled_first(shifted));
                assert(checks_after(shifted, 1) =~= extra);
                let rest = files_walk(*folder, position + 1, extra);
                assert(old_steps + (seq![file_step] + rest.0) =~= steps + rest.0);
            }
        }
        position = position + 1;
    }
    proof {
        assert forall|extra: Seq<bool>| #[trigger]
            folder_walk(*folder, checks + extra) == (steps, checks.len()) by {
            assert(folder_walk(*folder, checks + extra) == (
                steps + files_walk(*folder, position as int, extra).0,
                checks.len() + files_walk(*folder, position as int, extra).1,
            ));
            assert(steps + Seq::<ScanStep>::empty() =~= steps);
        }
    }
    Ghost((checks, steps))
}

/// Publish the projected tree below `folder`: its snapshot starts, each child folder is
/// recorded and then published in turn, and its files are recorded. Cancellation is checked
/// before the snapshot, before each child folder and before each file; a check that finds the
/// scan cancelled ends the folder it is made in. The report is that of the walk for some
/// answers of the checks; see [`lemma_uncancelled_walk_is_complete`] for a walk that is never
/// cancelled.
pub fn publish_projection(folder: &FolderEntry, scan: &mut ScanProgressContext<'_>)
    requires
        counter_room(old(scan).counter, item_count(*folder)),
    ensures
        final(scan).same_scan(old(scan)),
        exists|checks: Seq<bool>|
            final(scan).report() == apply_steps(
                old(scan).config(),
                old(scan).report(),
                #[trigger] folder_walk(*folder, checks).0,
            ),
{
    let walked = publish_folder(folder, scan);
    proof {
        let checks = walked@.0;
        assert(checks + Seq::<bool>::empty() =~= checks);
        assert(folder_walk(*folder, checks + Seq::<bool>::empty()) == (walked@.1, checks.len()));
        assert(folder_walk(*folder, checks).0 == walked@.1);
    }
}

} // verus!
