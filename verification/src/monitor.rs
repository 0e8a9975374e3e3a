//! What the desktop pet watches: how long the user has been active, process
//! names as the state triggers match them, and the list of running
//! applications offered when configuring triggers.
use vstd::prelude::*;
use crate::image_ops::is_ascii_text;
use crate::order::{keys_sorted, sort_by_text_key, TextKeyed};
use crate::text::{
    append_str, ascii_lower, chars_of, ends_with, lower_ascii_vec, string_from_chars, string_of,
    trim_both, trim_vec, TrimClass, ends_with_vec, str_eq,
};

verus! {

/// Idle time from which the user no longer counts as active, in seconds.
pub const ACTIVE_IDLE_THRESHOLD_SECS: u64 = 30;

/// How long the user has been continuously active. Times are seconds on a
/// monotonic clock.
#[derive(Debug, Clone)]
pub struct FocusTracker {
    pub active_since: Option<u64>,
    pub last_idle_secs: u64,
}

/// One update of a focus tracker: the new start of the active stretch, the
/// idle time kept, and the seconds of activity reported.
pub open spec fn focus_step(since: Option<u64>, last_idle: u64, idle: u64, now: u64) -> (
    Option<u64>,
    u64,
    u64,
) {
    if idle >= ACTIVE_IDLE_THRESHOLD_SECS {
        (None, idle, 0)
    } else {
        let start = match since {
            Some(t) => t,
            None => now,
        };
        (Some(start), last_idle, if now >= start {
            (now - start) as u64
        } else {
            0
        })
    }
}

/// What successive updates with these idle times at these clock times
/// report, from a tracker in the given state.
pub open spec fn focus_run(since: Option<u64>, last_idle: u64, idles: Seq<u64>, times: Seq<u64>) -> Seq<
    u64,
>
    decreases idles.len(),
{
    if idles.len() == 0 || times.len() == 0 {
        Seq::empty()
    } else {
        let (s, l, r) = focus_step(since, last_idle, idles[0], times[0]);
        seq![r] + focus_run(s, l, idles.drop_first(), times.drop_first())
    }
}

proof fn lemma_focus_run_from(t: u64, last_idle: u64, idles: Seq<u64>, times: Seq<u64>)
    requires
        idles.len() == times.len(),
        forall|k: int| 0 <= k < idles.len() ==> #[trigger] idles[k] < ACTIVE_IDLE_THRESHOLD_SECS,
        forall|i: int, j: int| 0 <= i <= j < times.len() ==> times[i] <= times[j],
        times.len() > 0 ==> t <= times[0],
    ensures
        focus_run(Some(t), last_idle, idles, times).len() == idles.len(),
        forall|k: int|
            0 <= k < idles.len() ==> #[trigger] focus_run(Some(t), last_idle, idles, times)[k]
                == times[k] - t,
    decreases idles.len(),
{
    if idles.len() > 0 {
        let rest_i = idles.drop_first();
        let rest_t = times.drop_first();
        assert forall|k: int| 0 <= k < rest_i.len() implies #[trigger] rest_i[k]
            < ACTIVE_IDLE_THRESHOLD_SECS by {
            assert(rest_i[k] == idles[k + 1]);
        }
        assert forall|i: int, j: int| 0 <= i <= j < rest_t.len() implies rest_t[i] <= rest_t[j] by {
            assert(rest_t[i] == times[i + 1] && rest_t[j] == times[j + 1]);
        }
        if rest_t.len() > 0 {
            assert(times[0] <= times[1]);
        }
        assert(idles[0] < ACTIVE_IDLE_THRESHOLD_SECS);
        lemma_focus_run_from(t, last_idle, rest_i, rest_t);
        let run = focus_run(Some(t), last_idle, idles, times);
        let tail = focus_run(Some(t), last_idle, rest_i, rest_t);
        assert(run == seq![(times[0] - t) as u64] + tail);
        assert forall|k: int| 0 <= k < idles.len() implies #[trigger] run[k] == times[k] - t by {
            if k > 0 {
                assert(run[k] == tail[k - 1]);
                assert(rest_t[k - 1] == times[k]);
                assert(times[0] <= times[k]);
            }
        }
    }
}

/// Along a run of updates that all find the user active (idle under the
/// threshold), starting from a tracker with no active stretch (a new one, or
/// one whose last update found the user idle), each update reports the whole
/// seconds since the run's first update, so the reports never decrease. The
/// clock times are those of a monotonic clock: they never decrease.
pub proof fn focus_seconds_along_active_run(last_idle: u64, idles: Seq<u64>, times: Seq<u64>)
    requires
        idles.len() == times.len(),
        forall|k: int| 0 <= k < idles.len() ==> #[trigger] idles[k] < ACTIVE_IDLE_THRESHOLD_SECS,
        forall|i: int, j: int| 0 <= i <= j < times.len() ==> times[i] <= times[j],
    ensures
        focus_run(None, last_idle, idles, times).len() == idles.len(),
        forall|k: int|
            0 <= k < idles.len() ==> #[trigger] focus_run(None, last_idle, idles, times)[k]
                == times[k] - times[0],
        forall|i: int, j: int|
            0 <= i <= j < idles.len() ==> focus_run(None, last_idle, idles, times)[i]
                <= focus_run(None, last_idle, idles, times)[j],
{
    if idles.len() > 0 {
        let t = times[0];
        let rest_i = idles.drop_first();
        let rest_t = times.drop_first();
        assert forall|k: int| 0 <= k < rest_i.len() implies #[trigger] rest_i[k]
            < ACTIVE_IDLE_THRESHOLD_SECS by {
            assert(rest_i[k] == idles[k + 1]);
        }
        assert forall|i: int, j: int| 0 <= i <= j < rest_t.len() implies rest_t[i] <= rest_t[j] by {
            assert(rest_t[i] == times[i + 1] && rest_t[j] == times[j + 1]);
        }
        if rest_t.len() > 0 {
            assert(times[0] <= times[1]);
        }
        assert(idles[0] < ACTIVE_IDLE_THRESHOLD_SECS);
        lemma_focus_run_from(t, last_idle, rest_i, rest_t);
        let run = focus_run(None, last_idle, idles, times);
        let tail = focus_run(Some(t), last_idle, rest_i, rest_t);
        assert(run == seq![0u64] + tail);
        assert forall|k: int| 0 <= k < idles.len() implies #[trigger] run[k] == times[k] - times[0] by {
            if k > 0 {
                assert(run[k] == tail[k - 1]);
                assert(rest_t[k - 1] == times[k]);
            }
        }
        assert forall|i: int, j: int| 0 <= i <= j < idles.len() implies run[i] <= run[j] by {
            assert(run[i] == times[i] - times[0]);
            assert(run[j] == times[j] - times[0]);
        }
    }
}

impl FocusTracker {
    /// Not active yet.
    pub fn new() -> (r: Self)
        ensures
            r.active_since is None,
            r.last_idle_secs == 0,
    {
        FocusTracker { active_since: None, last_idle_secs: 0 }
    }

    /// Take in the idle time at clock time `now`: 30 idle seconds or more end
    /// the active stretch (0 seconds); otherwise the stretch starts now if it
    /// had not started, and its length so far is returned.
    pub fn update(&mut self, idle_seconds: u64, now: u64) -> (r: u64)
        ensures
            (final(self).active_since, final(self).last_idle_secs, r) == focus_step(
                old(self).active_since,
                old(self).last_idle_secs,
                idle_seconds,
                now,
            ),
    {
        if idle_seconds >= ACTIVE_IDLE_THRESHOLD_SECS {
            self.active_since = None;
            self.last_idle_secs = idle_seconds;
            return 0;
        }
        if self.active_since.is_none() {
            self.active_since = Some(now);
        }
        match self.active_since {
            Some(t) => now.saturating_sub(t),
            None => 0,
        }
    }
}

/// The lower-case form of the text that `str::to_lowercase` gives (Unicode
/// lower-case mapping).
pub uninterp spec fn unicode_lowercase(s: Seq<char>) -> Seq<char>;

/// `str::to_lowercase`. On ASCII text it is the ASCII lower-case mapping.
#[verifier::external_body]
fn to_lowercase(s: &str) -> (r: String)
    ensures
        r@ == unicode_lowercase(s@),
        is_ascii_text(s@) ==> r@ == ascii_lower(s@),
{
    s.to_lowercase()
}

/// A path separator of either kind.
pub open spec fn is_separator(c: char) -> bool {
    c == '\\' || c == '/'
}

/// The text after the last separator (all of it when there is none).
pub open spec fn last_segment(s: Seq<char>) -> Seq<char>
    decreases s.len(),
{
    if s.len() == 0 {
        s
    } else if is_separator(s.last()) {
        Seq::empty()
    } else {
        last_segment(s.drop_last()).push(s.last())
    }
}

fn last_segment_exec(v: &Vec<char>) -> (r: Vec<char>)
    ensures
        r@ == last_segment(v@),
{
    let n = v.len();
    let mut j: usize = n;
    assert(v@.subrange(j as int, n as int) =~= Seq::<char>::empty());
    assert(v@.subrange(0, n as int) =~= v@);
    assert(last_segment(v@) + Seq::<char>::empty() =~= last_segment(v@));
    while j > 0 && !(v[j - 1] == '\\' || v[j - 1] == '/')
        invariant
            n == v@.len(),
            j <= n,
            last_segment(v@) == last_segment(v@.subrange(0, j as int)) + v@.subrange(j as int, n as int),
        decreases j,
    {
        let ghost pre = v@.subrange(0, j as int);
        assert(pre.drop_last() =~= v@.subrange(0, j - 1));
        assert(last_segment(pre) == last_segment(pre.drop_last()).push(pre.last()));
        assert(last_segment(pre.drop_last()).push(pre.last()) + v@.subrange(j as int, n as int)
            =~= last_segment(v@.subrange(0, j - 1)) + v@.subrange(j - 1, n as int));
        j = j - 1;
    }
    let mut out: Vec<char> = Vec::new();
    let mut k: usize = j;
    while k < n
        invariant
            n == v@.len(),
            j <= k <= n,
            out@ == v@.subrange(j as int, k as int),
        decreases n - k,
    {
        out.push(v[k]);
        assert(out@ =~= v@.subrange(j as int, k + 1));
        k = k + 1;
    }
    proof {
        let pre = v@.subrange(0, j as int);
        if j > 0 {
            assert(is_separator(pre.last()));
        }
        assert(last_segment(pre) =~= Seq::<char>::empty());
        assert(Seq::<char>::empty() + v@.subrange(j as int, n as int) =~= out@);
    }
    out
}

/// The name a trigger matches for a process: without path, lower-case, and
/// ending in `.exe`; nothing for a blank name.
pub open spec fn normalized_process_name(raw: Seq<char>) -> Option<Seq<char>> {
    let t = trim_both(raw, TrimClass::Whitespace);
    if t.len() == 0 {
        None
    } else {
        let lower = unicode_lowercase(last_segment(t));
        if ends_with(lower, ".exe"@) {
            Some(lower)
        } else {
            Some(lower + ".exe"@)
        }
    }
}

/// Normalize a process name (see `normalized_process_name`).
pub fn normalize_process_name(raw: &str) -> (r: Option<String>)
    ensures
        match r {
            Some(s) => normalized_process_name(raw@) == Some(s@),
            None => normalized_process_name(raw@) is None,
        },
        r matches Some(s) ==> ends_with(s@, ".exe"@),
{
    let t = trim_vec(&chars_of(raw), TrimClass::Whitespace, true, true);
    if t.len() == 0 {
        return None;
    }
    let base = string_from_chars(last_segment_exec(&t).as_slice());
    let mut lower = to_lowercase(base.as_str());
    if ends_with_vec(&chars_of(lower.as_str()), &chars_of(".exe")) {
        return Some(lower);
    }
    let ghost before = lower@;
    append_str(&mut lower, ".exe");
    proof {
        reveal_strlit(".exe");
        assert((before + ".exe"@).subrange(before.len() as int, before.len() as int + 4) =~= ".exe"@);
    }
    Some(lower)
}

/// A process name without a trailing `.exe` (in any case), trimmed; a name
/// of at most four characters stays as it is.
pub open spec fn display_without_exe(raw: Seq<char>) -> Seq<char> {
    let t = trim_both(raw, TrimClass::Whitespace);
    if t.len() <= 4 || !ends_with(ascii_lower(t), ".exe"@) {
        t
    } else {
        t.subrange(0, t.len() - 4)
    }
}

/// Drop a trailing `.exe` from a process name (see `display_without_exe`).
pub fn display_name_without_exe(raw: &str) -> (r: String)
    ensures
        r@ == display_without_exe(raw@),
{
    let t = trim_vec(&chars_of(raw), TrimClass::Whitespace, true, true);
    let n = t.len();
    if n <= 4 {
        return string_from_chars(t.as_slice());
    }
    let lower = lower_ascii_vec(&t);
    if !ends_with_vec(&lower, &chars_of(".exe")) {
        return string_from_chars(t.as_slice());
    }
    let mut out: Vec<char> = Vec::new();
    let mut i: usize = 0;
    while i < n - 4
        invariant
            n == t@.len(),
            n > 4,
            i <= n - 4,
            out@ == t@.subrange(0, i as int),
        decreases n - 4 - i,
    {
        out.push(t[i]);
        assert(out@ =~= t@.subrange(0, i + 1));
        i = i + 1;
    }
    string_from_chars(out.as_slice())
}

/// The name shown for a running application: the file description of its
/// executable when it has one, else its process name without `.exe`, else
/// the normalized name without `.exe`, else the normalized name.
pub open spec fn process_display_name(
    description: Option<Seq<char>>,
    raw_name: Seq<char>,
    normalized_exe: Seq<char>,
) -> Seq<char> {
    match description {
        Some(d) => d,
        None => if display_without_exe(raw_name).len() > 0 {
            display_without_exe(raw_name)
        } else if display_without_exe(normalized_exe).len() > 0 {
            display_without_exe(normalized_exe)
        } else {
            normalized_exe
        },
    }
}

/// Choose the name shown for a running application.
pub fn resolve_process_display_name(description: Option<String>, raw_name: &str, normalized_exe: &str) -> (r:
    String)
    ensures
        r@ == process_display_name(
            match description {
                Some(d) => Some(d@),
                None => None,
            },
            raw_name@,
            normalized_exe@,
        ),
{
    match description {
        Some(d) => d,
        None => {
            let raw_display = display_name_without_exe(raw_name);
            if !raw_display.as_str().is_empty() {
                return raw_display;
            }
            let exe_display = display_name_without_exe(normalized_exe);
            if !exe_display.as_str().is_empty() {
                return exe_display;
            }
            string_of(normalized_exe)
        },
    }
}

/// A running application offered as a trigger.
#[derive(Debug, Clone)]
pub struct RunningProcessItem {
    pub exe: String,
    pub display_name: String,
}

impl TextKeyed for RunningProcessItem {
    open spec fn sort_key(&self) -> (Seq<char>, Seq<char>) {
        (unicode_lowercase(self.display_name@), self.exe@)
    }

    fn sort_key_exec(&self) -> (r: (Vec<char>, Vec<char>)) {
        let lower = to_lowercase(self.display_name.as_str());
        (chars_of(lower.as_str()), chars_of(self.exe.as_str()))
    }
}

/// A process with a visible window: its process name and the file
/// description of its executable, if any.
#[derive(Debug, Clone)]
pub struct ProcessCandidate {
    pub name: String,
    pub description: Option<String>,
}

/// The view of an optional string.
pub open spec fn opt_view(s: Option<String>) -> Option<Seq<char>> {
    match s {
        Some(v) => Some(v@),
        None => None,
    }
}

/// Some entry already has the executable name.
pub open spec fn has_exe(items: Seq<(Seq<char>, Seq<char>)>, exe: Seq<char>) -> bool {
    exists|i: int| 0 <= i < items.len() && #[trigger] items[i].0 == exe
}

/// The applications of the first `k` candidates: one entry per normalized
/// executable name, from its first candidate, with its display name.
pub open spec fn first_per_exe(cands: Seq<ProcessCandidate>, k: int) -> Seq<(Seq<char>, Seq<char>)>
    decreases k,
{
    if k <= 0 {
        Seq::empty()
    } else {
        let acc = first_per_exe(cands, k - 1);
        let c = cands[k - 1];
        match normalized_process_name(c.name@) {
            Some(exe) => if has_exe(acc, exe) {
                acc
            } else {
                acc.push((exe, process_display_name(opt_view(c.description), c.name@, exe)))
            },
            None => acc,
        }
    }
}

/// Executable name and display name of an entry.
pub open spec fn item_view(i: RunningProcessItem) -> (Seq<char>, Seq<char>) {
    (i.exe@, i.display_name@)
}

/// Executable and display names of the entries.
pub open spec fn item_views(s: Seq<RunningProcessItem>) -> Seq<(Seq<char>, Seq<char>)> {
    s.map_values(|i: RunningProcessItem| item_view(i))
}

fn has_exe_exec(items: &Vec<RunningProcessItem>, exe: &str) -> (r: bool)
    ensures
        r == has_exe(item_views(items@), exe@),
{
    let ghost views = item_views(items@);
    let n = items.len();
    let mut i: usize = 0;
    while i < n
        invariant
            n == items@.len(),
            views == item_views(items@),
            i <= n,
            forall|j: int| 0 <= j < i ==> #[trigger] views[j].0 != exe@,
        decreases n - i,
    {
        assert(views[i as int].0 == items@[i as int].exe@);
        if str_eq(items[i].exe.as_str(), exe) {
            return true;
        }
        i = i + 1;
    }
    false
}

/// `items` lists exactly the wanted entries, sorted by their keys.
pub open spec fn is_offered_list(items: Seq<RunningProcessItem>, wanted: Seq<(Seq<char>, Seq<char>)>) -> bool {
    &&& items.len() == wanted.len()
    &&& keys_sorted(items)
    &&& forall|i: int| 0 <= i < items.len() ==> wanted.contains(#[trigger] item_view(items[i]))
    &&& forall|j: int| 0 <= j < wanted.len() ==> listed(items, #[trigger] wanted[j])
}

/// Some item has these names.
pub open spec fn listed(items: Seq<RunningProcessItem>, w: (Seq<char>, Seq<char>)) -> bool {
    exists|i: int| 0 <= i < items.len() && #[trigger] item_view(items[i]) == w
}

/// The running applications to offer: one per executable name (from the
/// first process with that name), sorted by lower-cased display name, then
/// by executable name.
pub fn running_process_list(candidates: Vec<ProcessCandidate>) -> (r: Vec<RunningProcessItem>)
    ensures
        is_offered_list(r@, first_per_exe(candidates@, candidates@.len() as int)),
{
    let ghost cands = candidates@;
    let n = candidates.len();
    let mut items: Vec<RunningProcessItem> = Vec::new();
    let mut k: usize = 0;
    while k < n
        invariant
            n == candidates@.len(),
            cands == candidates@,
            k <= n,
            item_views(items@) == first_per_exe(cands, k as int),
        decreases n - k,
    {
        let c = &candidates[k];
        let ghost before = items@;
        match normalize_process_name(c.name.as_str()) {
            Some(exe) => {
                if !has_exe_exec(&items, exe.as_str()) {
                    let display = resolve_process_display_name(
                        crate::types::copy_opt_string(&c.description),
                        c.name.as_str(),
                        exe.as_str(),
                    );
                    items.push(RunningProcessItem { exe, display_name: display });
                    assert(item_views(items@) =~= item_views(before).push(item_view(items@.last())));
                }
            },
            None => {},
        }
        k = k + 1;
    }
    let ghost wanted = item_views(items@);
    let ghost unsorted = items@;
    let r = sort_by_text_key(items);
    proof {
        assert forall|i: int| 0 <= i < r@.len() implies wanted.contains(#[trigger] item_view(r@[i])) by {
            vstd::seq_lib::to_multiset_contains(r@, r@[i]);
            vstd::seq_lib::to_multiset_contains(unsorted, r@[i]);
            assert(r@.contains(r@[i]));
            let j = choose|j: int| 0 <= j < unsorted.len() && unsorted[j] == r@[i];
            assert(wanted[j] == item_view(unsorted[j]));
        }
        assert forall|j: int| 0 <= j < wanted.len() implies listed(r@, #[trigger] wanted[j]) by {
            vstd::seq_lib::to_multiset_contains(r@, unsorted[j]);
            vstd::seq_lib::to_multiset_contains(unsorted, unsorted[j]);
            assert(unsorted.contains(unsorted[j]));
            let i = choose|i: int| 0 <= i < r@.len() && r@[i] == unsorted[j];
            assert(wanted[j] == item_view(unsorted[j]));
            assert(0 <= i < r@.len() && item_view(r@[i]) == wanted[j]);
        }
        assert(wanted == first_per_exe(candidates@, candidates@.len() as int));
        assert(r@.len() == wanted.len());
        assert(keys_sorted(r@));
        assert(forall|i: int| 0 <= i < r@.len() ==> wanted.contains(#[trigger] item_view(r@[i])));
        assert(is_offered_list(r@, wanted));
    }
    r
}

/// Process ids of the windows the user can see. Window detection is not
/// available on this platform: there are none.
pub fn get_visible_window_pids() -> (r: Vec<u32>)
    ensures
        r@.len() == 0,
{
    Vec::new()
}

/// The process that has the focus. Window detection is not available on this
/// platform: none.
pub fn get_active_process_name() -> (r: Option<String>)
    ensures
        r is None,
{
    None
}

/// Seconds since the last user input. Not available on this platform.
pub fn get_idle_seconds() -> (r: Option<u64>)
    ensures
        r is None,
{
    None
}

/// Whether sound is playing. Not detectable on this platform: no.
pub fn is_audio_playing() -> (r: bool)
    ensures
        !r,
{
    false
}

/// Whether the microphone is in use. Not detectable on this platform: no.
pub fn is_microphone_active() -> (r: bool)
    ensures
        !r,
{
    false
}

/// One entry of the on-screen window list as the window server reports it:
/// its layer, its owner's process id and its owner's name, where present.
#[derive(Debug, Clone)]
pub struct WindowEntry {
    pub layer: Option<i32>,
    pub owner_pid: Option<i32>,
    pub owner_name: Option<String>,
}

/// The process id an entry contributes: ordinary application windows
/// (layer 0) with a positive owner id.
pub open spec fn listed_pid(e: WindowEntry) -> Option<u32> {
    if e.layer == Some(0i32) && (e.owner_pid matches Some(p) && p > 0) {
        Some(e.owner_pid.unwrap() as u32)
    } else {
        None
    }
}

fn entry_pid(e: &WindowEntry) -> (r: Option<u32>)
    ensures
        r == listed_pid(*e),
{
    match (e.layer, e.owner_pid) {
        (Some(l), Some(p)) => if l == 0 && p > 0 {
            Some(p as u32)
        } else {
            None
        },
        _ => None,
    }
}

/// The owners of the application windows on screen, each once, in the order
/// of their first window.
pub fn on_screen_window_pids(entries: &Vec<WindowEntry>) -> (r: Vec<u32>)
    ensures
        r@.no_duplicates(),
        forall|p: u32|
            r@.contains(p) <==> exists|i: int|
                0 <= i < entries@.len() && #[trigger] listed_pid(entries@[i]) == Some(p),
{
    let mut out: Vec<u32> = Vec::new();
    let n = entries.len();
    let mut i: usize = 0;
    while i < n
        invariant
            n == entries@.len(),
            i <= n,
            out@.no_duplicates(),
            forall|p: u32|
                out@.contains(p) <==> exists|k: int|
                    0 <= k < i && #[trigger] listed_pid(entries@[k]) == Some(p),
        decreases n - i,
    {
        match entry_pid(&entries[i]) {
            Some(p) => {
                let mut seen = false;
                let mut j: usize = 0;
                while j < out.len()
                    invariant
                        j <= out@.len(),
                        seen == exists|k: int| 0 <= k < j && out@[k] == p,
                    decreases out@.len() - j,
                {
                    if out[j] == p {
                        seen = true;
                    }
                    j = j + 1;
                }
                if !seen {
                    let ghost before = out@;
                    out.push(p);
                    assert forall|q: u32| out@.contains(q) <==> exists|k: int|
                        0 <= k < i + 1 && #[trigger] listed_pid(entries@[k]) == Some(q) by {
                        if out@.contains(q) && q != p {
                            let m = choose|m: int| 0 <= m < out@.len() && out@[m] == q;
                            assert(before.contains(q)) by {
                                assert(m < before.len());
                                assert(before[m] == q);
                            }
                        }
                        if q == p {
                            assert(listed_pid(entries@[i as int]) == Some(q));
                            assert(out@[before.len() as int] == q);
                        }
                        if exists|k: int| 0 <= k < i + 1 && #[trigger] listed_pid(entries@[k]) == Some(q) {
                            if q != p {
                                let k = choose|k: int| 0 <= k < i + 1 && #[trigger] listed_pid(entries@[k]) == Some(q);
                                assert(k < i);
                                assert(before.contains(q));
                                let m = choose|m: int| 0 <= m < before.len() && before[m] == q;
                                assert(out@[m] == q);
                            }
                        }
                    }
                } else {
                    assert forall|q: u32| out@.contains(q) <==> exists|k: int|
                        0 <= k < i + 1 && #[trigger] listed_pid(entries@[k]) == Some(q) by {
                        if q == p {
                            let m = choose|m: int| 0 <= m < out@.len() && out@[m] == p;
                            assert(out@.contains(p));
                        }
                        if exists|k: int| 0 <= k < i + 1 && #[trigger] listed_pid(entries@[k]) == Some(q) {
                            if q != p {
                                let k = choose|k: int| 0 <= k < i + 1 && #[trigger] listed_pid(entries@[k]) == Some(q);
                                assert(k < i);
                            }
                        }
                    }
                }
            },
            None => {
                assert forall|q: u32| out@.contains(q) <==> exists|k: int|
                    0 <= k < i + 1 && #[trigger] listed_pid(entries@[k]) == Some(q) by {
                    if exists|k: int| 0 <= k < i + 1 && #[trigger] listed_pid(entries@[k]) == Some(q) {
                        let k = choose|k: int| 0 <= k < i + 1 && #[trigger] listed_pid(entries@[k]) == Some(q);
                        assert(k < i);
                    }
                }
            },
        }
        i = i + 1;
    }
    out
}

/// The owner name of the frontmost application window: the first layer-0
/// entry of the list decides, whether or not it names its owner.
pub open spec fn front_owner(entries: Seq<WindowEntry>) -> Option<String>
    decreases entries.len(),
{
    if entries.len() == 0 {
        None
    } else if entries[0].layer == Some(0i32) {
        entries[0].owner_name
    } else {
        front_owner(entries.drop_first())
    }
}

/// The owner name of the frontmost application window of the list.
pub fn frontmost_window_owner(entries: &Vec<WindowEntry>) -> (r: Option<String>)
    ensures
        r == front_owner(entries@),
{
    let n = entries.len();
    let mut i: usize = 0;
    assert(entries@.subrange(0, n as int) =~= entries@);
    while i < n
        invariant
            n == entries@.len(),
            i <= n,
            front_owner(entries@) == front_owner(entries@.subrange(i as int, n as int)),
        decreases n - i,
    {
        let ghost rest = entries@.subrange(i as int, n as int);
        assert(rest[0] == entries@[i as int]);
        if entries[i].layer == Some(0i32) {
            return entries[i].owner_name.clone();
        }
        assert(rest.drop_first() =~= entries@.subrange(i + 1, n as int));
        i = i + 1;
    }
    None
}

} // verus!
