use crate::grid::{grid_full, Vector2D};
use crate::model::{lemma_occupied_count, lemma_replenished_count, EngineView, MIN_SPEED};
use vstd::prelude::*;

verus! {

/// Raising or clearing the lost-focus overlay twice has the effect of doing it once.
pub proof fn law_focus_banner_idempotent(s: EngineView, shown: bool)
    ensures
        s.with_focus_banner(shown).with_focus_banner(shown) == s.with_focus_banner(shown),
{
}

/// A reset leaves a well-formed game with score zero, a one-cell snake and no
/// apples; the step after it keeps the score at zero and the snake one cell
/// long, and places as many apples as the target or the free cells allow,
/// whichever is fewer.
pub proof fn law_reset_then_step(s: EngineView, t: EngineView)
    requires
        s.wf(),
        s.reset_state().update_ok(t),
    ensures
        s.reset_state().wf(),
        s.reset_state().score == 0,
        s.reset_state().path.len() == 1,
        s.reset_state().apples.len() == 0,
        s.reset_state().frames_between_updates == MIN_SPEED,
        t.score == 0,
        t.path.len() == 1,
        t.apples.len() == s.num_apples || grid_full(t.cols, t.rows, t.path, t.apples),
        t.apples.len() == if s.num_apples <= s.cols * s.rows - 1 {
            s.num_apples as int
        } else {
            s.cols * s.rows - 1
        },
{
    let r = s.reset_state();
    assert(r.wf());
    assert(!r.apples.contains(r.next_head()));
    assert(r.stepped().score == 0);
    crate::model::lemma_stepped_wf(r);
    lemma_replenished_count(r.stepped(), t.apples);
}

/// Heading right from the last column, the next head is the first column of the same row.
pub proof fn law_wrap_right_edge(s: EngineView)
    requires
        s.wf(),
        s.direction == (Vector2D { x: 1, y: 0 }),
        s.head().x == s.cols - 1,
    ensures
        s.next_head() == (Vector2D { x: 0, y: s.head().y }),
        !s.path.contains(s.next_head()) ==> s.stepped().head() == s.next_head(),
{
    lemma_head_in_grid(s);
    if !s.path.contains(s.next_head()) {
        lemma_moved_head(s);
    }
}

/// Heading right from the last column onto a free cell, a step puts the head
/// in the first column of the same row, and a running game on a grid with
/// room for the longer snake and an apple keeps running.
pub proof fn law_wrap_step_keeps_playing(s: EngineView, t: EngineView)
    requires
        s.wf(),
        s.direction == (Vector2D { x: 1, y: 0 }),
        s.head().x == s.cols - 1,
        !s.path.contains(s.next_head()),
        !s.game_over,
        s.num_apples >= 1,
        s.path.len() + 1 < s.cols * s.rows,
        s.update_ok(t),
    ensures
        t.head() == (Vector2D { x: 0, y: s.head().y }),
        !t.game_over,
{
    law_wrap_right_edge(s);
    lemma_moved_head(s);
    let st = s.stepped();
    crate::model::lemma_stepped_wf(s);
    lemma_occupied_count(st.cols, st.rows, st.path, t.apples);
}

/// A move onto the snake itself is blocked: the path, the score and the
/// apples stay as they were, and the apples are still replenished.
pub proof fn law_blocked_move(s: EngineView, t: EngineView)
    requires
        s.wf(),
        s.path.contains(s.next_head()),
        s.update_ok(t),
    ensures
        s.stepped().path == s.path,
        s.stepped().score == s.score,
        s.stepped().apples == s.apples,
        t.path == s.path,
        t.score == s.score,
        t.apples.subrange(0, s.apples.len() as int) == s.apples,
        s.stepped().replenished(t.apples),
        s.apples.len() <= s.num_apples ==> t.apples.len() == if s.num_apples <= s.cols * s.rows
            - s.path.len() {
            s.num_apples as int
        } else {
            s.cols * s.rows - s.path.len()
        },
{
    assert(!s.apples.contains(s.next_head())) by {
        if s.apples.contains(s.next_head()) {
            let i = choose|i: int| 0 <= i < s.apples.len() && s.apples[i] == s.next_head();
            assert(!s.path.contains(s.apples[i]));
        }
    }
    crate::model::lemma_stepped_wf(s);
    if s.apples.len() <= s.num_apples {
        lemma_replenished_count(s.stepped(), t.apples);
    }
}

/// An apple on the next head's cell is eaten by the step: it leaves the
/// apples, the score rises by one, and the snake grows by one cell at the
/// following unblocked move.
pub proof fn law_growth(s: EngineView)
    requires
        s.wf(),
        s.apples.contains(s.next_head()),
    ensures
        !s.path.contains(s.next_head()),
        s.stepped().head() == s.next_head(),
        !s.stepped().apples.contains(s.next_head()),
        s.stepped().apples.len() == s.apples.len() - 1,
        s.stepped().score == s.score + 1,
        s.stepped().growing,
        s.stepped().wf(),
        !s.stepped().path.contains(s.stepped().next_head()) ==>
            s.stepped().stepped().path.len() == s.stepped().path.len() + 1,
{
    let nh = s.next_head();
    let i = choose|i: int| 0 <= i < s.apples.len() && s.apples[i] == nh;
    assert(!s.path.contains(s.apples[i]));
    lemma_moved_head(s);
    crate::model::lemma_stepped_wf(s);
    crate::model::lemma_remove_cell(s.apples, nh, i);
}

/// The key buffer keeps at most three keys: from an empty buffer, a fourth key
/// is dropped, and the keys leave the buffer oldest first, one per step, the
/// first one applied while the game runs.
pub proof fn law_key_buffer(s: EngineView, k1: Seq<char>, k2: Seq<char>, k3: Seq<char>, k4: Seq<char>)
    requires
        s.keys.len() == 0,
    ensures
        s.with_key(k1).with_key(k2).with_key(k3).with_key(k4).keys == seq![k1, k2, k3],
        s.with_key(k1).with_key(k2).with_key(k3).with_key(k4).key_processed().keys == seq![k2, k3],
        s.with_key(k1).with_key(k2).with_key(k3).with_key(k4).key_processed().key_processed().keys
            == seq![k3],
        s.with_key(k1).with_key(k2).with_key(k3).with_key(k4).key_processed().key_processed()
            .key_processed().keys.len() == 0,
        !s.effectively_paused() ==> s.with_key(k1).with_key(k2).with_key(k3).with_key(k4).key_processed()
            == s.with_key(k1).with_key(k2).with_key(k3).with_key(k4).without_first_key().apply_key(
            crate::keys::key_of(k1),
        ),
{
    let f = s.with_key(k1).with_key(k2).with_key(k3).with_key(k4);
    assert(f.keys =~= seq![k1, k2, k3]);
    assert(f.keys.drop_first() =~= seq![k2, k3]);
    assert(seq![k2, k3].drop_first() =~= seq![k3]);
    assert(seq![k3].drop_first() =~= Seq::<Seq<char>>::empty());
}

/// Between two steps the key buffer is left as the step's key processing
/// left it: the update itself consumes no key.
pub proof fn law_step_consumes_one_key(s: EngineView, t: EngineView)
    requires
        s.wf(),
        s.tick_ok(t),
        !s.pre_processed().effectively_paused(),
        s.pre_processed().frames_until_update == 0,
    ensures
        t.keys == s.pre_processed().key_processed().keys,
{
}

/// A step that leaves no apple ends the game as won; with a positive apple
/// target that happens only when every cell is taken.
pub proof fn law_win(s: EngineView, t: EngineView)
    requires
        s.wf(),
        s.update_ok(t),
        t.apples.len() == 0,
    ensures
        t.game_over,
        t.won,
        s.num_apples > 0 ==> grid_full(t.cols, t.rows, t.path, t.apples),
{
}

proof fn lemma_head_in_grid(s: EngineView)
    requires
        s.wf(),
    ensures
        0 <= s.head().x < s.cols,
        0 <= s.head().y < s.rows,
{
    assert(crate::grid::in_grid(s.path[s.path.len() - 1], s.cols, s.rows));
    assert(crate::grid::in_grid(s.path[0], s.cols, s.rows));
}

proof fn lemma_moved_head(s: EngineView)
    requires
        s.wf(),
        !s.path.contains(s.next_head()),
    ensures
        s.stepped().head() == s.next_head(),
        s.stepped().path.len() == s.path.len() + if s.growing { 1int } else { 0int },
{
}

} // verus!
