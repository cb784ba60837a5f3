//! What the statements of a selection do to the table of selections, and which selections count.

use vstd::prelude::*;

use super::db::{
    after_selection, lemma_uses_step, selection_answer, selection_counts,
    selection_statement_of, uses_counted, within_a_day, SelectionEvent, SelectionStep,
};
use super::sql::StatementView;
use super::tables::pair;

verus! {

/// The table of selections: when each user last selected each GIF, in seconds.
pub type Selections = Map<(Seq<char>, Seq<char>), int>;

/// What a statement does to the table at `now`, and what it answers. The one that inserts leaves a
/// row that is there as it is. The one that refreshes answers of the row as it was, and leaves it
/// with the present time; of a row that is not there it answers nothing, which counts as no.
pub open spec fn selection_effect(t: Selections, s: StatementView, now: int) -> (
    Selections,
    SelectionEvent,
) {
    let key = pair(s);
    if s.text
        == "INSERT INTO selections (mxid, gif_id, used_at) VALUES ($1, $2, now()) ON CONFLICT (mxid, gif_id) DO NOTHING"@ {
        if t.contains_key(key) {
            (t, SelectionEvent::Created(0))
        } else {
            (t.insert(key, now), SelectionEvent::Created(1))
        }
    } else if s.text
        == "WITH cur AS (SELECT used_at <= now() - interval '1 day' AS stale FROM selections WHERE mxid = $1 AND gif_id = $2 FOR UPDATE), upd AS (UPDATE selections SET used_at = now() WHERE mxid = $1 AND gif_id = $2) SELECT stale FROM cur"@ {
        if t.contains_key(key) {
            (t.insert(key, now), SelectionEvent::Stale(t[key] <= now - 86_400))
        } else {
            (t, SelectionEvent::Stale(false))
        }
    } else {
        (t, SelectionEvent::Stale(false))
    }
}

/// The two texts are not of one length, so they are not the same.
proof fn lemma_lengths()
    ensures
        "INSERT INTO selections (mxid, gif_id, used_at) VALUES ($1, $2, now()) ON CONFLICT (mxid, gif_id) DO NOTHING"@.len()
            == 107,
        "WITH cur AS (SELECT used_at <= now() - interval '1 day' AS stale FROM selections WHERE mxid = $1 AND gif_id = $2 FOR UPDATE), upd AS (UPDATE selections SET used_at = now() WHERE mxid = $1 AND gif_id = $2) SELECT stale FROM cur"@.len()
            == 226,
{
    reveal_strlit(
        "INSERT INTO selections (mxid, gif_id, used_at) VALUES ($1, $2, now()) ON CONFLICT (mxid, gif_id) DO NOTHING",
    );
    reveal_strlit(
        "WITH cur AS (SELECT used_at <= now() - interval '1 day' AS stale FROM selections WHERE mxid = $1 AND gif_id = $2 FOR UPDATE), upd AS (UPDATE selections SET used_at = now() WHERE mxid = $1 AND gif_id = $2) SELECT stale FROM cur",
    );
}

/// The statement that refreshes a selection answers yes exactly where the selection was last used at
/// least a day ago, and leaves it used at the present time. Other selections stay.
pub proof fn law_refreshing_tells_whether_a_day_has_passed(
    t: Selections,
    mxid: Seq<char>,
    gif_id: Seq<char>,
    now: int,
)
    requires
        t.contains_key((mxid, gif_id)),
    ensures
        selection_statement_of(SelectionStep::Refresh, mxid, gif_id) is Some,
        ({
            let s = selection_statement_of(SelectionStep::Refresh, mxid, gif_id)->0;
            let prior = t[(mxid, gif_id)];
            selection_effect(t, s, now) == (
                t.insert((mxid, gif_id), now),
                SelectionEvent::Stale(prior <= now - 86_400),
            )
        }),
{
    lemma_lengths();
}

/// The statement that records a first selection adds it at the present time where there is none, and
/// says so; where there is one, it says so and changes nothing.
pub proof fn law_only_a_first_selection_is_inserted(
    t: Selections,
    mxid: Seq<char>,
    gif_id: Seq<char>,
    now: int,
)
    ensures
        selection_statement_of(SelectionStep::Insert, mxid, gif_id) is Some,
        ({
            let s = selection_statement_of(SelectionStep::Insert, mxid, gif_id)->0;
            selection_effect(t, s, now) == if t.contains_key((mxid, gif_id)) {
                (t, SelectionEvent::Created(0))
            } else {
                (t.insert((mxid, gif_id), now), SelectionEvent::Created(1))
            }
        }),
{
    lemma_lengths();
}

/// What running the statement of a step does and answers. A step without a statement does nothing.
pub open spec fn step_run(
    t: Selections,
    step: SelectionStep,
    mxid: Seq<char>,
    gif_id: Seq<char>,
    now: int,
) -> (Selections, SelectionEvent) {
    match selection_statement_of(step, mxid, gif_id) {
        Some(s) => selection_effect(t, s, now),
        None => (t, SelectionEvent::Stale(false)),
    }
}

/// What a selection at `now` leaves in the table, and whether it counts: the statements of its steps
/// are run, each answer deciding the next step, until it is finished.
pub open spec fn selected(t: Selections, mxid: Seq<char>, gif_id: Seq<char>, now: int) -> (
    Selections,
    bool,
) {
    let (first, event) = step_run(t, SelectionStep::Insert, mxid, gif_id, now);
    match after_selection(event) {
        SelectionStep::Finished(counts) => (first, counts),
        step => {
            let (second, answer) = step_run(first, step, mxid, gif_id, now);
            (second, after_selection(answer) == SelectionStep::Finished(true))
        },
    }
}

/// The selection of this GIF that is recorded for the user.
pub open spec fn prior_of(t: Selections, mxid: Seq<char>, gif_id: Seq<char>) -> Option<int> {
    if t.contains_key((mxid, gif_id)) {
        Some(t[(mxid, gif_id)])
    } else {
        None
    }
}

/// What each step finds is what its statement answers.
pub proof fn law_steps_find_what_their_statements_answer(
    t: Selections,
    mxid: Seq<char>,
    gif_id: Seq<char>,
    now: int,
)
    ensures
        step_run(t, SelectionStep::Insert, mxid, gif_id, now).1 == selection_answer(
            SelectionStep::Insert,
            prior_of(t, mxid, gif_id),
            now,
        ),
        step_run(t, SelectionStep::Refresh, mxid, gif_id, now).1 == selection_answer(
            SelectionStep::Refresh,
            prior_of(t, mxid, gif_id),
            now,
        ),
{
    lemma_lengths();
}

/// A selection is recorded at its time, whether it counts or not, and no other one is touched. It
/// counts exactly where it is the user's first of this GIF, or the one recorded is a day old.
pub proof fn law_selections_are_recorded(
    t: Selections,
    mxid: Seq<char>,
    gif_id: Seq<char>,
    now: int,
)
    ensures
        selected(t, mxid, gif_id, now).0 == t.insert((mxid, gif_id), now),
        selected(t, mxid, gif_id, now).1 <==> {
            ||| !t.contains_key((mxid, gif_id))
            ||| t[(mxid, gif_id)] <= now - 86_400
        },
        selected(t, mxid, gif_id, now).1 == selection_counts(prior_of(t, mxid, gif_id), now),
{
    lemma_lengths();
    law_only_a_first_selection_is_inserted(t, mxid, gif_id, now);
    if t.contains_key((mxid, gif_id)) {
        law_refreshing_tells_whether_a_day_has_passed(t, mxid, gif_id, now);
    }
}

/// How many selections of a GIF by a user count, made at these times.
pub open spec fn selections_counted(
    t: Selections,
    mxid: Seq<char>,
    gif_id: Seq<char>,
    times: Seq<int>,
) -> nat
    decreases times.len(),
{
    if times.len() == 0 {
        0
    } else {
        let (after, counts) = selected(t, mxid, gif_id, times[0]);
        let rest = selections_counted(after, mxid, gif_id, times.drop_first());
        if counts {
            rest + 1
        } else {
            rest
        }
    }
}

proof fn lemma_counted(t: Selections, mxid: Seq<char>, gif_id: Seq<char>, times: Seq<int>)
    ensures
        selections_counted(t, mxid, gif_id, times) == uses_counted(
            prior_of(t, mxid, gif_id),
            times,
        ),
    decreases times.len(),
{
    if times.len() > 0 {
        law_selections_are_recorded(t, mxid, gif_id, times[0]);
        let after = selected(t, mxid, gif_id, times[0]).0;
        lemma_counted(after, mxid, gif_id, times.drop_first());
    }
}

/// However often a user selects a GIF within a day, at most one of the selections counts; where none
/// was recorded less than a day before the first of them, exactly that one.
pub proof fn law_selecting_again_does_not_count(
    t: Selections,
    mxid: Seq<char>,
    gif_id: Seq<char>,
    times: Seq<int>,
)
    requires
        times.len() > 0,
        within_a_day(times),
    ensures
        selections_counted(t, mxid, gif_id, times) == (if t.contains_key((mxid, gif_id))
            && times[0] - 86_400 < t[(mxid, gif_id)] {
            0nat
        } else {
            1nat
        }),
{
    lemma_counted(t, mxid, gif_id, times);
    lemma_uses_step(prior_of(t, mxid, gif_id), times);
}

} // verus!
