//! Layout guide images sent along with each strip request: one per animation
//! state, showing where the frames of the strip go.
use vstd::prelude::*;
use crate::text::str_eq;
use crate::types::{row_state, spec_row_count};

verus! {

/// The animation state has a layout guide: it is one of the atlas rows.
pub open spec fn has_guide(state: Seq<char>) -> bool {
    exists|i: int| 0 <= i < spec_row_count() && row_state(i) == state
}

/// The guide image of a state, as a path under the assets directory:
/// `layout-guides/<state>.png`; none for an unknown state.
pub fn get(state: &str) -> (r: Option<&'static str>)
    ensures
        r is Some <==> has_guide(state@),
        r matches Some(p) ==> p@ == "layout-guides/"@ + state@ + ".png"@,
{
    proof {
        reveal_strlit("idle");
        reveal_strlit("running-right");
        reveal_strlit("running-left");
        reveal_strlit("waving");
        reveal_strlit("jumping");
        reveal_strlit("failed");
        reveal_strlit("waiting");
        reveal_strlit("running");
        reveal_strlit("review");
        reveal_strlit("layout-guides/idle.png");
        reveal_strlit("layout-guides/running-right.png");
        reveal_strlit("layout-guides/running-left.png");
        reveal_strlit("layout-guides/waving.png");
        reveal_strlit("layout-guides/jumping.png");
        reveal_strlit("layout-guides/failed.png");
        reveal_strlit("layout-guides/waiting.png");
        reveal_strlit("layout-guides/running.png");
        reveal_strlit("layout-guides/review.png");
        reveal_strlit("layout-guides/");
        reveal_strlit(".png");
        assert(row_state(0) == "idle"@);
        assert(row_state(1) == "running-right"@);
        assert(row_state(2) == "running-left"@);
        assert(row_state(3) == "waving"@);
        assert(row_state(4) == "jumping"@);
        assert(row_state(5) == "failed"@);
        assert(row_state(6) == "waiting"@);
        assert(row_state(7) == "running"@);
        assert(row_state(8) == "review"@);
    }
    if str_eq(state, "idle") {
        assert("layout-guides/idle.png"@ =~= "layout-guides/"@ + state@ + ".png"@);
        Some("layout-guides/idle.png")
    } else if str_eq(state, "running-right") {
        assert("layout-guides/running-right.png"@ =~= "layout-guides/"@ + state@ + ".png"@);
        Some("layout-guides/running-right.png")
    } else if str_eq(state, "running-left") {
        assert("layout-guides/running-left.png"@ =~= "layout-guides/"@ + state@ + ".png"@);
        Some("layout-guides/running-left.png")
    } else if str_eq(state, "waving") {
        assert("layout-guides/waving.png"@ =~= "layout-guides/"@ + state@ + ".png"@);
        Some("layout-guides/waving.png")
    } else if str_eq(state, "jumping") {
        assert("layout-guides/jumping.png"@ =~= "layout-guides/"@ + state@ + ".png"@);
        Some("layout-guides/jumping.png")
    } else if str_eq(state, "failed") {
        assert("layout-guides/failed.png"@ =~= "layout-guides/"@ + state@ + ".png"@);
        Some("layout-guides/failed.png")
    } else if str_eq(state, "waiting") {
        assert("layout-guides/waiting.png"@ =~= "layout-guides/"@ + state@ + ".png"@);
        Some("layout-guides/waiting.png")
    } else if str_eq(state, "running") {
        assert("layout-guides/running.png"@ =~= "layout-guides/"@ + state@ + ".png"@);
        Some("layout-guides/running.png")
    } else if str_eq(state, "review") {
        assert("layout-guides/review.png"@ =~= "layout-guides/"@ + state@ + ".png"@);
        Some("layout-guides/review.png")
    } else {
        None
    }
}

} // verus!
