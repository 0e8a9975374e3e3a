//! Step decisions of a creation run: where the base image comes from, how each
//! animation strip is obtained, the per-batch retry policy, the frame-count
//! check, and resuming unfinished runs.
use vstd::prelude::*;
use crate::order::{keys_sorted, sort_by_text_key, TextKeyed};
use crate::pipeline::{
    compute_batches, has_strip, is_rate_limit_error, max_frames_for_provider, seq_sum,
    spec_batches, spec_is_rate_limit, spec_max_frames, strip_names, RATE_LIMIT_BACKOFF_SECS,
};
use crate::text::{chars_of, str_eq, string_of};
use crate::types::{
    row_frames, spec_row_count, CreationProgressFile, PetCreationRequest, CELL_HEIGHT, CELL_WIDTH,
};

verus! {

/// Where the base image of a run comes from.
#[derive(Debug, Clone, Copy, PartialEq, Eq)]
pub enum BaseImageSource {
    /// `base.png` already exists in the work directory.
    Cached,
    /// Generate from the prompt alone.
    TextOnly,
    /// Generate from the prompt and the user's reference image.
    WithReference,
}

/// A cached base is reused; otherwise a non-empty reference image is sent
/// with the prompt, and the prompt alone is used when there is none.
pub fn plan_base_image(has_cached_base: bool, reference_image: &Option<String>) -> (r:
    BaseImageSource)
    ensures
        has_cached_base ==> r == BaseImageSource::Cached,
        !has_cached_base && (reference_image matches Some(s) && s@.len() > 0) ==> r
            == BaseImageSource::WithReference,
        !has_cached_base && !(reference_image matches Some(s) && s@.len() > 0) ==> r
            == BaseImageSource::TextOnly,
{
    if has_cached_base {
        return BaseImageSource::Cached;
    }
    match reference_image {
        Some(s) => {
            if s.as_str().is_empty() {
                BaseImageSource::TextOnly
            } else {
                BaseImageSource::WithReference
            }
        },
        None => BaseImageSource::TextOnly,
    }
}

/// A freshly generated base image waits for the user's confirmation; a
/// reused one does not.
pub fn needs_base_confirmation(source: BaseImageSource) -> (r: bool)
    ensures
        r == (source != BaseImageSource::Cached),
{
    match source {
        BaseImageSource::Cached => false,
        _ => true,
    }
}

/// How an animation strip is obtained.
#[derive(Debug, Clone, Copy, PartialEq, Eq)]
pub enum StripSource {
    /// Recorded as completed and its file is still there.
    Cached,
    /// `running-left` is the mirror image of `running-right`.
    Mirror,
    /// Ask the provider, batch by batch.
    Generate,
}

/// The decision for one strip.
pub open spec fn spec_plan_strip(completed: Seq<Seq<char>>, state: Seq<char>, file_exists: bool) -> StripSource {
    if completed.contains(state) && file_exists {
        StripSource::Cached
    } else if state == "running-left"@ {
        StripSource::Mirror
    } else {
        StripSource::Generate
    }
}

/// Reuse a completed strip whose file exists, mirror `running-left`, and
/// generate everything else.
pub fn plan_strip(progress: &CreationProgressFile, state_name: &str, strip_file_exists: bool) -> (r:
    StripSource)
    ensures
        r == spec_plan_strip(strip_names(progress.completed_strips@), state_name@, strip_file_exists),
{
    if has_strip(&progress.completed_strips, state_name) && strip_file_exists {
        StripSource::Cached
    } else if str_eq(state_name, "running-left") {
        StripSource::Mirror
    } else {
        StripSource::Generate
    }
}

/// How many times one batch is tried before the run fails.
pub const MAX_BATCH_ATTEMPTS: usize = 4;

/// What the runner does after the outcome of one request.
#[derive(Debug, Clone, Copy, PartialEq, Eq)]
pub enum BatchStep {
    /// The batch succeeded; go on with the next one (or the strip is done).
    Continue,
    /// The batch failed without a rate limit: try it again at once.
    RetryNow,
    /// The provider rate-limited the batch: wait this many seconds, then try again.
    RetryAfter(u64),
    /// The batch failed on its last attempt: the run fails.
    Failed,
}

/// One request the runner wants made.
#[derive(Debug, Clone, Copy, PartialEq, Eq)]
pub struct BatchRequest {
    /// Index of the batch within the strip.
    pub index: usize,
    /// Number of batches of the strip.
    pub count: usize,
    /// Frames this request asks for.
    pub frames: u32,
    /// Frames already generated by earlier batches of the strip.
    pub frames_done: u32,
    /// Frames of the whole strip.
    pub total_frames: u32,
    /// Requested image width: one cell per frame.
    pub width: u32,
    /// Requested image height: one cell.
    pub height: u32,
}

/// The seconds to wait before retry `attempt` (1-based) of a rate-limited batch.
pub open spec fn backoff_secs(attempt: int) -> u64 {
    if attempt == 1 {
        5
    } else if attempt == 2 {
        15
    } else {
        30
    }
}

/// Generates one strip batch by batch, retrying failed requests.
pub struct BatchRunner {
    batches: Vec<u32>,
    total_frames: u32,
    next: usize,
    attempt: usize,
    frames_done: u32,
}

impl BatchRunner {
    /// The batch sizes of the strip.
    pub closed spec fn batches(&self) -> Seq<u32> {
        self.batches@
    }

    /// Index of the batch being generated (the count of batches when done).
    pub closed spec fn next_index(&self) -> int {
        self.next as int
    }

    /// Failed tries of the current batch so far.
    pub closed spec fn attempts(&self) -> int {
        self.attempt as int
    }

    /// Frames of the strip.
    pub closed spec fn total(&self) -> u32 {
        self.total_frames
    }

    /// Frames generated so far.
    pub closed spec fn done_frames(&self) -> int {
        self.frames_done as int
    }

    pub closed spec fn wf(&self) -> bool {
        &&& self.batches@.len() >= 1
        &&& self.next <= self.batches@.len()
        &&& self.attempt < MAX_BATCH_ATTEMPTS
        &&& self.frames_done as int == seq_sum(self.batches@.subrange(0, self.next as int))
        &&& seq_sum(self.batches@) == self.total_frames
        &&& forall|i: int| 0 <= i < self.batches@.len() ==> #[trigger] self.batches@[i] <= 8
    }

    /// A runner for a strip of `total_frames` frames generated by `provider`.
    pub fn new(total_frames: u32, provider: &str) -> (r: Self)
        requires
            total_frames <= 8,
        ensures
            r.wf(),
            r.batches() == spec_batches(total_frames, spec_max_frames(provider@)),
            r.next_index() == 0,
            r.attempts() == 0,
            r.done_frames() == 0,
            r.total() == total_frames,
    {
        let max = max_frames_for_provider(provider);
        let batches = compute_batches(total_frames, max);
        proof {
            crate::pipeline::batches_partition_row(total_frames, max);
            assert(seq_sum(batches@.subrange(0, 0)) == 0) by {
                assert(batches@.subrange(0, 0) =~= Seq::<u32>::empty());
            }
        }
        BatchRunner { batches, total_frames, next: 0, attempt: 0, frames_done: 0 }
    }

    /// Every batch has been generated.
    pub fn is_done(&self) -> (r: bool)
        requires
            self.wf(),
        ensures
            r == (self.next_index() == self.batches().len()),
    {
        self.next == self.batches.len()
    }

    /// The request for the current batch.
    pub fn request(&self) -> (r: BatchRequest)
        requires
            self.wf(),
            self.next_index() < self.batches().len(),
        ensures
            r.index == self.next_index(),
            r.count == self.batches().len(),
            r.frames == self.batches()[self.next_index()],
            r.frames_done == self.done_frames(),
            r.total_frames == self.total(),
            r.width == CELL_WIDTH * r.frames,
            r.height == CELL_HEIGHT,
    {
        let frames = self.batches[self.next];
        BatchRequest {
            index: self.next,
            count: self.batches.len(),
            frames,
            frames_done: self.frames_done,
            total_frames: self.total_frames,
            width: CELL_WIDTH * frames,
            height: CELL_HEIGHT,
        }
    }

    /// Record the outcome of the current request (`None` for success, the
    /// error text otherwise). A success moves to the next batch; a failure is
    /// retried at once, or after a back-off of 5, 15 and 30 seconds when the
    /// provider rate-limited it; the fourth failed try fails the run.
    pub fn record(&mut self, error: Option<&str>) -> (step: BatchStep)
        requires
            old(self).wf(),
            old(self).next_index() < old(self).batches().len(),
        ensures
            final(self).wf(),
            final(self).batches() == old(self).batches(),
            final(self).total() == old(self).total(),
            error.is_none() ==> {
                &&& step == BatchStep::Continue
                &&& final(self).next_index() == old(self).next_index() + 1
                &&& final(self).attempts() == 0
                &&& final(self).done_frames() == old(self).done_frames() + old(self).batches()[old(
                    self,
                ).next_index()]
            },
            error matches Some(e) ==> {
                &&& final(self).next_index() == old(self).next_index()
                &&& final(self).done_frames() == old(self).done_frames()
                &&& (old(self).attempts() + 1 >= MAX_BATCH_ATTEMPTS ==> step == BatchStep::Failed
                    && final(self).attempts() == old(self).attempts())
                &&& (old(self).attempts() + 1 < MAX_BATCH_ATTEMPTS ==> final(self).attempts()
                    == old(self).attempts() + 1)
                &&& (old(self).attempts() + 1 < MAX_BATCH_ATTEMPTS && !spec_is_rate_limit(e@)
                    ==> step == BatchStep::RetryNow)
                &&& (old(self).attempts() + 1 < MAX_BATCH_ATTEMPTS && spec_is_rate_limit(e@)
                    ==> step == BatchStep::RetryAfter(backoff_secs(old(self).attempts() + 1)))
            },
    {
        let attempt = self.attempt + 1;
        let len = self.batches.len();
        let next = self.next;
        assert(next < len);
        match error {
            None => {
                let ghost before = self.batches@.subrange(0, self.next as int);
                let frames = self.batches[self.next];
                proof {
                    let after = self.batches@.subrange(0, self.next as int + 1);
                    assert(after.drop_last() =~= before);
                    crate::creation::lemma_prefix_sum_le(self.batches@, self.next as int + 1);
                }
                self.frames_done = self.frames_done + frames;
                self.next = next + 1;
                self.attempt = 0;
                BatchStep::Continue
            },
            Some(e) => {
                if attempt >= MAX_BATCH_ATTEMPTS {
                    return BatchStep::Failed;
                }
                self.attempt = attempt;
                if !is_rate_limit_error(e) {
                    return BatchStep::RetryNow;
                }
                BatchStep::RetryAfter(RATE_LIMIT_BACKOFF_SECS[attempt - 1])
            },
        }
    }
}

/// A prefix of the batches sums to at most the whole.
pub proof fn lemma_prefix_sum_le(s: Seq<u32>, k: int)
    requires
        0 <= k <= s.len(),
    ensures
        seq_sum(s.subrange(0, k)) <= seq_sum(s),
    decreases s.len(),
{
    if k < s.len() {
        lemma_prefix_sum_le(s.drop_last(), k);
        assert(s.drop_last().subrange(0, k) =~= s.subrange(0, k));
    } else {
        assert(s.subrange(0, k) =~= s);
    }
}

/// Which row failed the frame-count check.
#[derive(Debug, Clone, Copy, PartialEq, Eq)]
pub struct FrameCountMismatch {
    pub row: usize,
    pub expected: u32,
    pub got: usize,
}

/// The quality check: row `i` must have exactly as many frames as the atlas
/// layout gives it. The first row that does not is reported.
pub fn check_frame_counts(counts: &Vec<usize>) -> (r: Result<(), FrameCountMismatch>)
    requires
        counts@.len() <= spec_row_count(),
    ensures
        r.is_ok() <==> forall|i: int| 0 <= i < counts@.len() ==> #[trigger] counts@[i] == row_frames(i),
        r matches Err(m) ==> {
            &&& m.row < counts@.len()
            &&& m.expected == row_frames(m.row as int)
            &&& m.got == counts@[m.row as int]
            &&& m.got != m.expected
            &&& forall|i: int| 0 <= i < m.row ==> #[trigger] counts@[i] == row_frames(i)
        },
{
    let n = counts.len();
    let mut i: usize = 0;
    while i < n
        invariant
            i <= n,
            n == counts@.len(),
            n <= spec_row_count(),
            forall|k: int| 0 <= k < i ==> #[trigger] counts@[k] == row_frames(k),
        decreases n - i,
    {
        let expected = crate::types::row_frame_count(i);
        if counts[i] != expected as usize {
            return Err(FrameCountMismatch { row: i, expected, got: counts[i] });
        }
        i = i + 1;
    }
    Ok(())
}

/// The progress a run starts from: what the work directory had (if
/// anything), re-labelled with this run's task id, request and row count.
pub fn prepare_progress(
    loaded: Option<CreationProgressFile>,
    task_id: &str,
    request: &PetCreationRequest,
    total_rows: usize,
) -> (r: CreationProgressFile)
    ensures
        r.task_id@ == task_id@,
        r.request == *request,
        r.total_rows == total_rows,
        loaded matches Some(p) ==> r.base_image_done == p.base_image_done && r.completed_strips
            == p.completed_strips,
        loaded.is_none() ==> !r.base_image_done && r.completed_strips@.len() == 0,
{
    match loaded {
        Some(p) => CreationProgressFile {
            task_id: string_of(task_id),
            request: request.duplicate(),
            base_image_done: p.base_image_done,
            completed_strips: p.completed_strips,
            total_rows,
        },
        None => crate::pipeline::create_initial_progress(task_id, request, total_rows),
    }
}

/// An unfinished run that can be resumed.
#[derive(Debug, Clone)]
pub struct IncompleteCreationTask {
    pub work_dir_name: String,
    pub pet_name: String,
    pub base_image_done: bool,
    pub completed_count: usize,
    pub total_rows: usize,
}

impl TextKeyed for IncompleteCreationTask {
    open spec fn sort_key(&self) -> (Seq<char>, Seq<char>) {
        (self.work_dir_name@, Seq::empty())
    }

    fn sort_key_exec(&self) -> (r: (Vec<char>, Vec<char>)) {
        (chars_of(self.work_dir_name.as_str()), Vec::new())
    }
}

/// A run is unfinished while fewer strips are completed than it has rows.
pub open spec fn is_unfinished(p: CreationProgressFile) -> bool {
    p.completed_strips@.len() < p.total_rows
}

/// The listing entry of a work directory, if its run is unfinished.
pub fn incomplete_task_entry(work_dir_name: &str, progress: &CreationProgressFile) -> (r: Option<
    IncompleteCreationTask,
>)
    ensures
        r.is_some() == is_unfinished(*progress),
        r matches Some(t) ==> {
            &&& t.work_dir_name@ == work_dir_name@
            &&& t.pet_name@ == progress.request.pet_name@
            &&& t.base_image_done == progress.base_image_done
            &&& t.completed_count == progress.completed_strips@.len()
            &&& t.total_rows == progress.total_rows
        },
{
    if progress.completed_strips.len() >= progress.total_rows {
        return None;
    }
    Some(
        IncompleteCreationTask {
            work_dir_name: string_of(work_dir_name),
            pet_name: progress.request.pet_name.clone(),
            base_image_done: progress.base_image_done,
            completed_count: progress.completed_strips.len(),
            total_rows: progress.total_rows,
        },
    )
}

/// The unfinished runs, ordered by work directory name.
pub fn sort_incomplete_tasks(tasks: Vec<IncompleteCreationTask>) -> (r: Vec<IncompleteCreationTask>)
    ensures
        r@ == crate::order::sorted_prefix(tasks@, tasks@.len() as int),
        keys_sorted(r@),
        r@.to_multiset() == tasks@.to_multiset(),
{
    sort_by_text_key(tasks)
}

/// A run can be resumed only while it is unfinished.
pub fn check_resumable(progress: &CreationProgressFile) -> (r: Result<(), String>)
    ensures
        r.is_ok() == is_unfinished(*progress),
{
    if progress.completed_strips.len() >= progress.total_rows {
        return Err(string_of("该任务已全部完成，无需续跑"));
    }
    Ok(())
}

} // verus!
