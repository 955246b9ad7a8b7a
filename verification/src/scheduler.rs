//! The scheduler: once per minute the host calls a tick, which reads the
//! wall clock at minute granularity and plans one outbound send for every
//! schedule entry whose stored time equals the clock reading — exactly
//! those, however many entries other times hold. Sending is the host's
//! job; a failed send is reported per entry and never holds back the rest
//! of the tick.

use vstd::prelude::*;
use crate::service::group::Group;
use crate::service::msg::Msg;
use crate::service::polling_msg::{due_rows, join_row, PollingMsg, PollingMsgDb};
use crate::timefmt::valid_time;

verus! {

/// Relies on chrono's `Local::now` and `DateTime::format` with `"%H:%M"`:
/// the local wall clock rendered as a zero-padded 24-hour `HH:MM` string,
/// so hours run 00–23 and minutes 00–59. Which reading comes back depends
/// on the clock; only its shape is promised.
#[verifier::external_body]
fn local_time_hhmm() -> (r: String)
    ensures
        valid_time(r@),
{
    chrono::Local::now().format("%H:%M").to_string()
}

/// One scheduler tick's planning step: reads the clock and returns the
/// reading together with the joined rows due at it — exactly the
/// resolvable entries whose stored time equals the reading, in store
/// order. The host sends each row's text to its group.
pub fn run_scheduler_tick(schedule: &PollingMsgDb, msgs: &Msg, groups: &Group) -> (r: (
    String,
    Vec<PollingMsg>,
))
    ensures
        valid_time(r.0@),
        r.1@.len() == due_rows(schedule.entries(), r.0@, msgs.rows(), groups.rows()).len(),
        forall|k: int|
            0 <= k < r.1@.len() ==> join_row(
                #[trigger] r.1@[k],
                due_rows(schedule.entries(), r.0@, msgs.rows(), groups.rows())[k],
                msgs.rows(),
                groups.rows(),
            ),
{
    let now = local_time_hhmm();
    let plan = schedule.get_polling_msgs_by_time(msgs, groups, now.as_str());
    (now, plan)
}

/// The rows of `p` whose outcome in `o` is `want`, in order.
pub open spec fn selected_rows(p: Seq<PollingMsg>, o: Seq<bool>, want: bool) -> Seq<PollingMsg>
    decreases p.len(),
{
    if p.len() == 0 {
        Seq::empty()
    } else if o[p.len() - 1] == want {
        selected_rows(p.drop_last(), o.drop_last(), want).push(p.last())
    } else {
        selected_rows(p.drop_last(), o.drop_last(), want)
    }
}

/// What became of one tick: which planned rows were delivered and which
/// failed, by each row's own transport outcome.
#[derive(Debug)]
pub struct TickReport {
    pub delivered: Vec<PollingMsg>,
    pub failed: Vec<PollingMsg>,
}

/// Copies one joined row; the copy equals the original.
fn clone_push(p: &PollingMsg) -> (r: PollingMsg)
    ensures
        r == *p,
{
    PollingMsg {
        id: p.id,
        hv_msg_id: p.hv_msg_id,
        group_id: p.group_id.clone(),
        send_time: p.send_time.clone(),
        msg_text: p.msg_text.clone(),
        msg_title: p.msg_title.clone(),
        msg_type: p.msg_type,
    }
}

/// Extending a prefix by one row keeps both selections in step.
proof fn lemma_selected_take_step(p: Seq<PollingMsg>, o: Seq<bool>, want: bool, i: int)
    requires
        0 <= i < p.len(),
        p.len() <= o.len(),
    ensures
        selected_rows(p.take(i + 1), o.take(i + 1), want) == if o[i] == want {
            selected_rows(p.take(i), o.take(i), want).push(p[i])
        } else {
            selected_rows(p.take(i), o.take(i), want)
        },
{
    assert(p.take(i + 1).drop_last() =~= p.take(i));
    assert(o.take(i + 1).drop_last() =~= o.take(i));
    assert(p.take(i + 1).last() == p[i]);
    assert(o.take(i + 1)[p.take(i + 1).len() - 1] == o[i]);
}

/// Settles one tick, given each planned row's transport outcome: every
/// row is classified by its own outcome alone, so one row's failure never
/// keeps another row from being delivered, and nothing is dropped.
pub fn complete_tick(plan: &Vec<PollingMsg>, outcomes: &Vec<bool>) -> (r: TickReport)
    requires
        plan@.len() == outcomes@.len(),
    ensures
        r.delivered@ == selected_rows(plan@, outcomes@, true),
        r.failed@ == selected_rows(plan@, outcomes@, false),
        r.delivered@.len() + r.failed@.len() == plan@.len(),
{
    let n: usize = plan.len();
    let mut delivered: Vec<PollingMsg> = Vec::new();
    let mut failed: Vec<PollingMsg> = Vec::new();
    proof {
        assert(plan@.take(0) =~= Seq::<PollingMsg>::empty());
        assert(outcomes@.take(0) =~= Seq::<bool>::empty());
    }
    let mut i: usize = 0;
    while i < n
        invariant
            i <= n,
            n == plan@.len(),
            n == outcomes@.len(),
            delivered@ == selected_rows(plan@.take(i as int), outcomes@.take(i as int), true),
            failed@ == selected_rows(plan@.take(i as int), outcomes@.take(i as int), false),
            delivered@.len() + failed@.len() == i,
        decreases n - i,
    {
        proof {
            lemma_selected_take_step(plan@, outcomes@, true, i as int);
            lemma_selected_take_step(plan@, outcomes@, false, i as int);
        }
        if outcomes[i] {
            delivered.push(clone_push(&plan[i]));
        } else {
            failed.push(clone_push(&plan[i]));
        }
        i = i + 1;
    }
    proof {
        assert(plan@.take(n as int) =~= plan@);
        assert(outcomes@.take(n as int) =~= outcomes@);
    }
    TickReport { delivered, failed }
}

/// Law: a planned row whose own send succeeds is delivered, no matter
/// which other rows of the tick fail.
pub proof fn lemma_tick_failure_isolation(p: Seq<PollingMsg>, o: Seq<bool>, k: int)
    requires
        p.len() == o.len(),
        0 <= k < p.len(),
        o[k],
    ensures
        selected_rows(p, o, true).contains(p[k]),
    decreases p.len(),
{
    if k == p.len() - 1 {
        let out = selected_rows(p, o, true);
        assert(out[out.len() - 1] == p[k]);
    } else {
        lemma_tick_failure_isolation(p.drop_last(), o.drop_last(), k);
        let sub = selected_rows(p.drop_last(), o.drop_last(), true);
        let x = choose|x: int| 0 <= x < sub.len() && sub[x] == p.drop_last()[k];
        if o[p.len() - 1] {
            assert(selected_rows(p, o, true)[x] == sub[x]);
        } else {
            assert(selected_rows(p, o, true)[x] == sub[x]);
        }
    }
}

/// Law: the tick's selection at a time holds exactly the resolvable
/// entries stored for that time — each selected entry is one of the
/// store's entries for that time, and every stored, resolvable entry for
/// that time is selected.
pub proof fn lemma_due_rows_exact(
    s: Seq<crate::service::polling_msg::ScheduleRow>,
    t: Seq<char>,
    ms: Seq<crate::service::msg::Message>,
    gs: Seq<crate::service::group::GroupInfo>,
)
    ensures
        forall|k: int|
            0 <= k < due_rows(s, t, ms, gs).len() ==> (#[trigger] due_rows(s, t, ms, gs)[k]).send_time@
                == t && s.contains(due_rows(s, t, ms, gs)[k]),
        forall|i: int|
            0 <= i < s.len() && (#[trigger] s[i]).send_time@ == t && crate::service::polling_msg::resolvable(
                s[i],
                ms,
                gs,
            ) ==> due_rows(s, t, ms, gs).contains(s[i]),
    decreases s.len(),
{
    if s.len() > 0 {
        let rest = s.drop_last();
        let sub = due_rows(rest, t, ms, gs);
        let out = due_rows(s, t, ms, gs);
        lemma_due_rows_exact(rest, t, ms, gs);
        assert forall|k: int|
            0 <= k < out.len() implies (#[trigger] out[k]).send_time@ == t && s.contains(
            out[k],
        ) by {
            if k < sub.len() {
                assert(out[k] == sub[k]);
                assert(rest.contains(sub[k]));
                let x = choose|x: int| 0 <= x < rest.len() && rest[x] == sub[k];
                assert(s[x] == sub[k]);
            } else {
                assert(out[k] == s[s.len() - 1]);
            }
        }
        assert forall|i: int|
            0 <= i < s.len() && (#[trigger] s[i]).send_time@ == t
                && crate::service::polling_msg::resolvable(s[i], ms, gs) implies out.contains(
            s[i],
        ) by {
            if i < s.len() - 1 {
                assert(rest[i] == s[i]);
                assert(sub.contains(s[i]));
                let x = choose|x: int| 0 <= x < sub.len() && sub[x] == s[i];
                assert(out[x] == s[i]);
            } else {
                assert(out[out.len() - 1] == s[i]);
            }
        }
    }
}

} // verus!
