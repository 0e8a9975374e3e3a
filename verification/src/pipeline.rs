//! Decisions of the pet creation pipeline: batching of animation strips,
//! retries on provider errors, resumable progress, and the atlas it writes.
use vstd::prelude::*;
use crate::text::{
    ascii_lower, chars_of, contains_seq, contains_vec, lower_ascii_vec, str_eq, string_of,
};
use crate::types::{
    default_atlas, is_default_atlas, row_count, row_display, row_frame_count, row_frames,
    row_state, row_state_name, spec_row_count, CreationProgressFile, PetAtlas, PetAtlasRow,
    PetCreationProgress, PetCreationRequest, CELL_HEIGHT, CELL_WIDTH,
};

verus! {

/// Seconds to wait before each retry of a rate-limited request.
pub const RATE_LIMIT_BACKOFF_SECS: [u64; 3] = [5, 15, 30];

/// Sum of a sequence of frame counts.
pub open spec fn seq_sum(s: Seq<u32>) -> int
    decreases s.len(),
{
    if s.len() == 0 {
        0
    } else {
        seq_sum(s.drop_last()) + s.last()
    }
}

/// Number of batches a row of `total` frames is split into.
pub open spec fn batch_count(total: u32, max: u32) -> int {
    if total <= max {
        1
    } else {
        (total as int + max as int - 1) / (max as int)
    }
}

/// The batch sizes of a row: one batch when it fits, otherwise the fewest
/// batches of at most `max` frames, the larger ones first, sizes differing by
/// at most one.
pub open spec fn spec_batches(total: u32, max: u32) -> Seq<u32> {
    if total <= max {
        seq![total]
    } else {
        let n = batch_count(total, max);
        Seq::new(
            n as nat,
            |i: int| ((total as int) / n + (if i < (total as int) % n { 1int } else { 0int })) as u32,
        )
    }
}

proof fn lemma_ceil_div(total: u32, max: u32)
    requires
        max > 0,
        total > max,
    ensures
        batch_count(total, max) == (total as int) / (max as int) + (if total % max != 0 {
            1int
        } else {
            0int
        }),
        batch_count(total, max) * (max as int) >= total,
        2 <= batch_count(total, max) <= total,
{
    let q = (total as int) / (max as int);
    let r = (total as int) % (max as int);
    assert(total == max * q + r) by (nonlinear_arith)
        requires
            max > 0,
            q == (total as int) / (max as int),
            r == (total as int) % (max as int),
    ;
    assert(0 <= r < max);
    assert(q >= 1) by (nonlinear_arith)
        requires
            total > max,
            max > 0,
            total == max * q + r,
            0 <= r < max,
    ;
    let n = (total as int + max as int - 1) / (max as int);
    if r == 0 {
        assert(q >= 2) by (nonlinear_arith)
            requires
                total > max,
                max > 0,
                total == max * q,
        ;
        assert(total + max - 1 == max * q + (max - 1));
        assert(n == q) by (nonlinear_arith)
            requires
                n == (total as int + max as int - 1) / (max as int),
                total + max - 1 == max * q + (max - 1),
                max > 0,
        ;
    } else {
        assert(total + max - 1 == max * (q + 1) + (r - 1)) by (nonlinear_arith)
            requires
                total == max * q + r,
        ;
        assert(n == q + 1) by (nonlinear_arith)
            requires
                n == (total as int + max as int - 1) / (max as int),
                total + max - 1 == max * (q + 1) + (r - 1),
                0 <= r - 1 < max,
                max > 0,
        ;
    }
    assert(n * (max as int) >= total) by (nonlinear_arith)
        requires
            total == max * q + r,
            0 <= r < max,
            r == 0 ==> n == q,
            r != 0 ==> n == q + 1,
    ;
    assert(n <= total) by (nonlinear_arith)
        requires
            total == max * q + r,
            0 <= r < max,
            max >= 1,
            q >= 1,
            r == 0 ==> n == q,
            r != 0 ==> n == q + 1,
    ;
}

proof fn lemma_sum_new(n: int, base: int, rem: int, k: int)
    requires
        0 <= k <= n,
        0 <= rem <= n,
        0 <= base,
        base + 1 <= u32::MAX,
    ensures
        seq_sum(
            Seq::new(k as nat, |i: int| (base + (if i < rem { 1int } else { 0int })) as u32),
        ) == k * base + (if k < rem { k } else { rem }),
    decreases k,
{
    let s = Seq::new(k as nat, |i: int| (base + (if i < rem { 1int } else { 0int })) as u32);
    if k == 0 {
        assert(seq_sum(s) == 0);
    } else {
        lemma_sum_new(n, base, rem, k - 1);
        let prev = Seq::new(
            (k - 1) as nat,
            |i: int| (base + (if i < rem { 1int } else { 0int })) as u32,
        );
        assert(s.drop_last() =~= prev);
        assert(seq_sum(prev) == (k - 1) * base + (if k - 1 < rem { k - 1 } else { rem }));
        assert(k * base == (k - 1) * base + base) by (nonlinear_arith);
        assert(s.last() == base + (if k - 1 < rem { 1int } else { 0int }));
        assert(seq_sum(s) == seq_sum(s.drop_last()) + s.last());
    }
}

/// The batches of a row add up to the row, none is larger than the limit,
/// and when the row is split no batch is empty.
pub proof fn batches_partition_row(total: u32, max: u32)
    requires
        max > 0,
    ensures
        seq_sum(spec_batches(total, max)) == total,
        spec_batches(total, max).len() == batch_count(total, max),
        total > 0 ==> forall|i: int|
            0 <= i < spec_batches(total, max).len() ==> 1 <= #[trigger] spec_batches(
                total,
                max,
            )[i] <= max || (total <= max && spec_batches(total, max)[i] == total),
        forall|i: int|
            0 <= i < spec_batches(total, max).len() ==> #[trigger] spec_batches(total, max)[i]
                <= max || total <= max,
{
    if total <= max {
        assert(seq![total].drop_last() =~= Seq::<u32>::empty());
        assert(seq_sum(Seq::<u32>::empty()) == 0);
        assert(seq_sum(seq![total]) == seq_sum(seq![total].drop_last()) + total);
    } else {
        lemma_ceil_div(total, max);
        let n = batch_count(total, max);
        let base = (total as int) / n;
        let rem = (total as int) % n;
        assert(total == n * base + rem && 0 <= rem < n && base >= 1) by (nonlinear_arith)
            requires
                n >= 2,
                n <= total,
                base == (total as int) / n,
                rem == (total as int) % n,
        ;
        assert(base < max || (base == max && rem == 0)) by (nonlinear_arith)
            requires
                total == n * base + rem,
                0 <= rem < n,
                n * (max as int) >= total,
                n >= 1,
        ;
        lemma_sum_new(n, base, rem, n);
        let sq = Seq::new(n as nat, |i: int| (base + (if i < rem { 1int } else { 0int })) as u32);
        assert(spec_batches(total, max) =~= sq);
        assert(seq_sum(sq) == n * base + rem);
        assert(seq_sum(spec_batches(total, max)) == n * base + rem);
        assert(n * base + rem == total);
    }
}

/// Split a row of `total_frames` into batches of at most `max_per_batch` frames.
pub fn compute_batches(total_frames: u32, max_per_batch: u32) -> (r: Vec<u32>)
    requires
        total_frames <= max_per_batch || max_per_batch > 0,
    ensures
        r@ == spec_batches(total_frames, max_per_batch),
{
    if total_frames <= max_per_batch {
        let mut v: Vec<u32> = Vec::new();
        v.push(total_frames);
        assert(v@ =~= seq![total_frames]);
        return v;
    }
    proof {
        lemma_ceil_div(total_frames, max_per_batch);
    }
    let num_batches = total_frames / max_per_batch + if total_frames % max_per_batch != 0 {
        1
    } else {
        0
    };
    let base = total_frames / num_batches;
    let remainder = total_frames % num_batches;
    proof {
        assert(base + 1 <= u32::MAX) by (nonlinear_arith)
            requires
                base == (total_frames as int) / (num_batches as int),
                num_batches >= 2,
        ;
    }
    let mut batches: Vec<u32> = Vec::new();
    let mut i: u32 = 0;
    while i < num_batches
        invariant
            i <= num_batches,
            num_batches == batch_count(total_frames, max_per_batch),
            base == (total_frames as int) / (num_batches as int),
            remainder == (total_frames as int) % (num_batches as int),
            base + 1 <= u32::MAX,
            batches@.len() == i,
            forall|k: int|
                0 <= k < i ==> #[trigger] batches@[k] == (base + (if k < remainder {
                    1int
                } else {
                    0int
                })) as u32,
        decreases num_batches - i,
    {
        let extra: u32 = if i < remainder {
            1
        } else {
            0
        };
        batches.push(base + extra);
        i = i + 1;
    }
    assert(batches@ =~= spec_batches(total_frames, max_per_batch));
    batches
}

/// Largest number of frames one request may cover, from the provider's image
/// ratio limit.
pub open spec fn spec_max_frames(provider: Seq<char>) -> u32 {
    if provider == "openai"@ {
        3
    } else {
        4
    }
}

/// Frames per request for a provider: three for OpenAI, four otherwise.
pub fn max_frames_for_provider(provider: &str) -> (r: u32)
    ensures
        r == spec_max_frames(provider@),
{
    if str_eq(provider, "openai") {
        3
    } else {
        4
    }
}

/// The error text reports a provider rate limit.
pub open spec fn spec_is_rate_limit(error: Seq<char>) -> bool {
    let l = ascii_lower(error);
    contains_seq(l, "429"@) || contains_seq(l, "too many requests"@) || contains_seq(
        l,
        "engineoverloaded"@,
    )
}

/// Whether an error (case-insensitively) mentions HTTP 429, "too many
/// requests" or "EngineOverloaded".
pub fn is_rate_limit_error(error: &str) -> (r: bool)
    ensures
        r == spec_is_rate_limit(error@),
{
    let e = chars_of(error);
    let l = lower_ascii_vec(&e);
    let p1 = chars_of("429");
    if contains_vec(&l, &p1) {
        return true;
    }
    let p2 = chars_of("too many requests");
    if contains_vec(&l, &p2) {
        return true;
    }
    let p3 = chars_of("engineoverloaded");
    contains_vec(&l, &p3)
}

/// A progress report with no error.
pub fn make_progress(
    task_id: &str,
    step: u32,
    sub_step: &str,
    status: &str,
    message: &str,
) -> (r: PetCreationProgress)
    ensures
        r.task_id@ == task_id@,
        r.step == step,
        r.sub_step@ == sub_step@,
        r.status@ == status@,
        r.message@ == message@,
        r.error.is_none(),
{
    PetCreationProgress {
        task_id: string_of(task_id),
        step,
        sub_step: string_of(sub_step),
        status: string_of(status),
        message: string_of(message),
        error: None,
    }
}

/// Progress of a task that has produced nothing yet.
pub fn create_initial_progress(
    task_id: &str,
    request: &PetCreationRequest,
    total_rows: usize,
) -> (r: CreationProgressFile)
    ensures
        r.task_id@ == task_id@,
        r.request == *request,
        !r.base_image_done,
        r.completed_strips@.len() == 0,
        r.total_rows == total_rows,
{
    CreationProgressFile {
        task_id: string_of(task_id),
        request: request.duplicate(),
        base_image_done: false,
        completed_strips: Vec::new(),
        total_rows,
    }
}

/// The names recorded as completed, by their characters.
pub open spec fn strip_names(v: Seq<String>) -> Seq<Seq<char>> {
    v.map_values(|s: String| s@)
}

/// Whether a strip name is recorded as completed.
pub fn has_strip(completed: &Vec<String>, state_name: &str) -> (r: bool)
    ensures
        r == strip_names(completed@).contains(state_name@),
{
    let n = completed.len();
    let mut i: usize = 0;
    while i < n
        invariant
            i <= n,
            n == completed@.len(),
            forall|k: int| 0 <= k < i ==> completed@[k]@ != state_name@,
        decreases n - i,
    {
        if str_eq(completed[i].as_str(), state_name) {
            assert(strip_names(completed@)[i as int] == state_name@);
            return true;
        }
        i = i + 1;
    }
    assert forall|k: int| 0 <= k < n implies strip_names(completed@)[k] != state_name@ by {
        assert(strip_names(completed@)[k] == completed@[k]@);
    }
    false
}

/// Record a strip as completed unless it already is.
pub fn mark_strip_completed(progress: &mut CreationProgressFile, state_name: &str)
    ensures
        final(progress).task_id == old(progress).task_id,
        final(progress).request == old(progress).request,
        final(progress).base_image_done == old(progress).base_image_done,
        final(progress).total_rows == old(progress).total_rows,
        strip_names(old(progress).completed_strips@).contains(state_name@)
            ==> final(progress).completed_strips@ == old(progress).completed_strips@,
        !strip_names(old(progress).completed_strips@).contains(state_name@)
            ==> strip_names(final(progress).completed_strips@)
            == strip_names(old(progress).completed_strips@).push(state_name@),
{
    if has_strip(&progress.completed_strips, state_name) {
        return;
    }
    let ghost before = progress.completed_strips@;
    progress.completed_strips.push(string_of(state_name));
    assert(strip_names(progress.completed_strips@) =~= strip_names(before).push(state_name@));
}

/// Marking strips keeps the completed list free of repeats, and marking one
/// twice is the same as marking it once.
pub proof fn mark_strip_keeps_names_unique(before: Seq<Seq<char>>, name: Seq<char>)
    requires
        before.no_duplicates(),
    ensures
        (if before.contains(name) { before } else { before.push(name) }).no_duplicates(),
        ({
            let once = if before.contains(name) {
                before
            } else {
                before.push(name)
            };
            (if once.contains(name) {
                once
            } else {
                once.push(name)
            }) == once
        }),
{
    if !before.contains(name) {
        let after = before.push(name);
        assert forall|i: int, j: int|
            0 <= i < after.len() && 0 <= j < after.len() && i != j implies after[i]
            != after[j] by {
            if i == before.len() as int {
                assert(before[j] != name);
            } else if j == before.len() as int {
                assert(before[i] != name);
            }
        }
        assert(after[before.len() as int] == name);
    }
}

/// The pipeline stops with "cancelled" once the task is cancelled.
pub fn check_cancelled(cancelled: bool) -> (r: Result<(), String>)
    ensures
        cancelled <==> r.is_err(),
        r matches Err(e) ==> e@ == "cancelled"@,
{
    if cancelled {
        return Err(string_of("cancelled"));
    }
    Ok(())
}

/// The display name written for an animation state.
pub open spec fn display_for_state(state: Seq<char>) -> Seq<char> {
    if state == "idle"@ {
        "待机"@
    } else if state == "running-right"@ {
        "向右跑"@
    } else if state == "running-left"@ {
        "向左跑"@
    } else if state == "waving"@ {
        "挥手"@
    } else if state == "jumping"@ {
        "跳跃"@
    } else if state == "failed"@ {
        "失败"@
    } else if state == "waiting"@ {
        "等待"@
    } else if state == "running"@ {
        "专注"@
    } else if state == "review"@ {
        "审视"@
    } else {
        state
    }
}

fn display_for_state_exec(state: &str) -> (r: String)
    ensures
        r@ == display_for_state(state@),
{
    if str_eq(state, "idle") {
        string_of("待机")
    } else if str_eq(state, "running-right") {
        string_of("向右跑")
    } else if str_eq(state, "running-left") {
        string_of("向左跑")
    } else if str_eq(state, "waving") {
        string_of("挥手")
    } else if str_eq(state, "jumping") {
        string_of("跳跃")
    } else if str_eq(state, "failed") {
        string_of("失败")
    } else if str_eq(state, "waiting") {
        string_of("等待")
    } else if str_eq(state, "running") {
        string_of("专注")
    } else if str_eq(state, "review") {
        string_of("审视")
    } else {
        string_of(state)
    }
}

/// The atlas description written beside a generated spritesheet: the first
/// `row_count` rows, each with its state, display name and frame count.
pub fn build_pet_atlas(row_count: usize) -> (r: PetAtlas)
    requires
        row_count <= spec_row_count(),
    ensures
        r.cell_width == CELL_WIDTH,
        r.cell_height == CELL_HEIGHT,
        r.rows@.len() == row_count,
        forall|i: int|
            0 <= i < row_count ==> {
                &&& (#[trigger] r.rows@[i]).state@ == row_state(i)
                &&& r.rows@[i].display_name@ == display_for_state(row_state(i))
                &&& r.rows@[i].frames == row_frames(i)
            },
{
    let mut rows: Vec<PetAtlasRow> = Vec::new();
    let mut i: usize = 0;
    while i < row_count
        invariant
            i <= row_count <= spec_row_count(),
            rows@.len() == i,
            forall|k: int|
                0 <= k < i ==> {
                    &&& (#[trigger] rows@[k]).state@ == row_state(k)
                    &&& rows@[k].display_name@ == display_for_state(row_state(k))
                    &&& rows@[k].frames == row_frames(k)
                },
        decreases row_count - i,
    {
        let state = row_state_name(i);
        let display = display_for_state_exec(state);
        rows.push(PetAtlasRow { state: string_of(state), display_name: display, frames: row_frame_count(i) });
        i = i + 1;
    }
    PetAtlas { cell_width: CELL_WIDTH, cell_height: CELL_HEIGHT, rows }
}

/// The atlas written for a freshly generated pet is the standard atlas layout.
pub proof fn generated_atlas_is_default(atlas: PetAtlas)
    requires
        atlas.cell_width == CELL_WIDTH,
        atlas.cell_height == CELL_HEIGHT,
        atlas.rows@.len() == spec_row_count(),
        forall|i: int|
            0 <= i < spec_row_count() ==> {
                &&& (#[trigger] atlas.rows@[i]).state@ == row_state(i)
                &&& atlas.rows@[i].display_name@ == display_for_state(row_state(i))
                &&& atlas.rows@[i].frames == row_frames(i)
            },
    ensures
        is_default_atlas(atlas),
{
    assert forall|i: int| 0 <= i < spec_row_count() implies crate::types::row_matches(
        #[trigger] atlas.rows@[i],
        i,
    ) by {
        reveal_strlit("idle");
        reveal_strlit("running-right");
        reveal_strlit("running-left");
        reveal_strlit("waving");
        reveal_strlit("jumping");
        reveal_strlit("failed");
        reveal_strlit("waiting");
        reveal_strlit("running");
        reveal_strlit("review");
        if i == 0 {
            assert(display_for_state("idle"@) == row_display(0));
        } else if i == 1 {
            assert("running-right"@.len() != "idle"@.len());
            assert("running-right"@ != "idle"@);
            assert(display_for_state("running-right"@) == row_display(1));
        } else if i == 2 {
            assert("running-left"@.len() != "idle"@.len());
            assert("running-left"@ != "idle"@);
            assert("running-left"@.len() != "running-right"@.len());
            assert("running-left"@ != "running-right"@);
            assert(display_for_state("running-left"@) == row_display(2));
        } else if i == 3 {
            assert("waving"@.len() != "idle"@.len());
            assert("waving"@ != "idle"@);
            assert("waving"@.len() != "running-right"@.len());
            assert("waving"@ != "running-right"@);
            assert("waving"@.len() != "running-left"@.len());
            assert("waving"@ != "running-left"@);
            assert(display_for_state("waving"@) == row_display(3));
        } else if i == 4 {
            assert("jumping"@.len() != "idle"@.len());
            assert("jumping"@ != "idle"@);
            assert("jumping"@.len() != "running-right"@.len());
            assert("jumping"@ != "running-right"@);
            assert("jumping"@.len() != "running-left"@.len());
            assert("jumping"@ != "running-left"@);
            assert("jumping"@.len() != "waving"@.len());
            assert("jumping"@ != "waving"@);
            assert(display_for_state("jumping"@) == row_display(4));
        } else if i == 5 {
            assert("failed"@.len() != "idle"@.len());
            assert("failed"@ != "idle"@);
            assert("failed"@.len() != "running-right"@.len());
            assert("failed"@ != "running-right"@);
            assert("failed"@.len() != "running-left"@.len());
            assert("failed"@ != "running-left"@);
            assert("failed"@[0] != "waving"@[0]);
            assert("failed"@ != "waving"@);
            assert("failed"@.len() != "jumping"@.len());
            assert("failed"@ != "jumping"@);
            assert(display_for_state("failed"@) == row_display(5));
        } else if i == 6 {
            assert("waiting"@.len() != "idle"@.len());
            assert("waiting"@ != "idle"@);
            assert("waiting"@.len() != "running-right"@.len());
            assert("waiting"@ != "running-right"@);
            assert("waiting"@.len() != "running-left"@.len());
            assert("waiting"@ != "running-left"@);
            assert("waiting"@.len() != "waving"@.len());
            assert("waiting"@ != "waving"@);
            assert("waiting"@[0] != "jumping"@[0]);
            assert("waiting"@ != "jumping"@);
            assert("waiting"@.len() != "failed"@.len());
            assert("waiting"@ != "failed"@);
            assert(display_for_state("waiting"@) == row_display(6));
        } else if i == 7 {
            assert("running"@.len() != "idle"@.len());
            assert("running"@ != "idle"@);
            assert("running"@.len() != "running-right"@.len());
            assert("running"@ != "running-right"@);
            assert("running"@.len() != "running-left"@.len());
            assert("running"@ != "running-left"@);
            assert("running"@.len() != "waving"@.len());
            assert("running"@ != "waving"@);
            assert("running"@[0] != "jumping"@[0]);
            assert("running"@ != "jumping"@);
            assert("running"@.len() != "failed"@.len());
            assert("running"@ != "failed"@);
            assert("running"@[0] != "waiting"@[0]);
            assert("running"@ != "waiting"@);
            assert(display_for_state("running"@) == row_display(7));
        } else {
            assert("review"@.len() != "idle"@.len());
            assert("review"@ != "idle"@);
            assert("review"@.len() != "running-right"@.len());
            assert("review"@ != "running-right"@);
            assert("review"@.len() != "running-left"@.len());
            assert("review"@ != "running-left"@);
            assert("review"@[0] != "waving"@[0]);
            assert("review"@ != "waving"@);
            assert("review"@.len() != "jumping"@.len());
            assert("review"@ != "jumping"@);
            assert("review"@[0] != "failed"@[0]);
            assert("review"@ != "failed"@);
            assert("review"@.len() != "waiting"@.len());
            assert("review"@ != "waiting"@);
            assert("review"@.len() != "running"@.len());
            assert("review"@ != "running"@);
            assert(display_for_state("review"@) == row_display(8));
        }
    }
}

} // verus!
