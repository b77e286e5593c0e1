//! What holds of the turns of the sessions on a probe, one after the other.
use crate::clock::Interval;
use crate::command::Reply;
use crate::probe_laws;
use crate::probe_model;
use crate::probe_model::{ProbeModel, ProbeTurn};
use crate::protocol::ProxySessionId;
use crate::session_laws;
use crate::session_model::{Outcome, SessionModel};
use vstd::prelude::*;

verus! {

/// What a whole turn of a probe gets to see: what the clock reads when it begins, and
/// the answers with what the clock reads then.
pub struct Course {
    pub now: Interval,
    pub answers: Seq<(Reply, Interval)>,
}

/// What comes of the answers, given one after the other until nothing is left to do.
pub open spec fn answered(probe: ProbeModel, answers: Seq<(Reply, Interval)>) -> ProbeModel
    decreases answers.len(),
{
    if answers.len() == 0 || probe.turn is Idle {
        probe
    } else {
        answered(probe.resumed(answers[0].0, answers[0].1).probe, answers.drop_first())
    }
}

/// The probe after a whole turn.
pub open spec fn turn_taken(probe: ProbeModel, course: Course) -> ProbeModel {
    answered(probe.serviced(course.now).probe, course.answers)
}

/// The probe after so many whole turns.
pub open spec fn turns_taken(probe: ProbeModel, courses: Seq<Course>, n: nat) -> ProbeModel
    decreases n,
{
    if n == 0 {
        probe
    } else {
        turn_taken(turns_taken(probe, courses, (n - 1) as nat), courses[n - 1])
    }
}

/// Whether the same sessions are there in the same order, and none but that one has
/// changed.
pub open spec fn only_changed(before: ProbeModel, after: ProbeModel, id: ProxySessionId) -> bool {
    &&& after.schedule == before.schedule
    &&& after.sessions.dom() == before.sessions.dom()
    &&& forall|other: ProxySessionId| #[trigger]
        before.sessions.contains_key(other) && other != id ==> after.sessions[other]
            == before.sessions[other]
}

/// Whether a session is in the middle of its turn.
pub open spec fn is_midway(before: ProbeModel, after: ProbeModel, id: ProxySessionId) -> bool {
    &&& after.turn == ProbeTurn::<SessionModel>::Update(id)
    &&& after.active
    &&& after.next == before.next
    &&& only_changed(before, after, id)
}

/// Whether a turn of a session is over and the schedule has moved on.
pub open spec fn has_moved_on(before: ProbeModel, after: ProbeModel, id: ProxySessionId) -> bool {
    &&& after.turn is Idle
    &&& after.active
    &&& after.next == probe_model::advanced(before.next, before.schedule.len())
    &&& only_changed(before, after, id)
}

/// Whether the connection was given up.
pub open spec fn is_lost(before: ProbeModel, after: ProbeModel) -> bool {
    &&& after.turn is DropDebugSession || after.turn is Idle
    &&& !after.active
    &&& after.next == 0
    &&& after.schedule == before.schedule
}

/// The ways that a turn can have gone so far.
pub open spec fn is_on_its_way(before: ProbeModel, after: ProbeModel, id: ProxySessionId) -> bool {
    is_midway(before, after, id) || has_moved_on(before, after, id) || is_lost(before, after)
}

/// Moving the schedule on ends a turn, or the connection is given up.
proof fn advance_ends_the_turn(
    before: ProbeModel,
    probe: ProbeModel,
    id: ProxySessionId,
    now: Interval,
)
    requires
        probe.active,
        probe.next == before.next,
        only_changed(before, probe, id),
    ensures
        is_on_its_way(before, probe.advance(now).probe, id),
        is_on_its_way(before, probe.turn_over(now).probe, id),
{
}

/// A step of the session whose turn it is.
proof fn step_goes_its_way(
    before: ProbeModel,
    probe: ProbeModel,
    id: ProxySessionId,
    outcome: Outcome,
    now: Interval,
)
    requires
        probe.active,
        probe.next == before.next,
        probe.sessions.contains_key(id),
        only_changed(before, probe, id),
    ensures
        is_on_its_way(before, probe.session_stepped(id, outcome, now).probe, id),
{
    let stepped = probe.stepped(id, outcome);
    assert(stepped.sessions.dom() =~= probe.sessions.dom());
    assert(only_changed(before, stepped, id));
    advance_ends_the_turn(before, stepped, id, now);
}

/// A turn goes on its way whatever the answers.
proof fn turn_goes_its_way(
    before: ProbeModel,
    probe: ProbeModel,
    id: ProxySessionId,
    answers: Seq<(Reply, Interval)>,
)
    requires
        probe.wf(),
        is_on_its_way(before, probe, id),
    ensures
        answered(probe, answers).wf(),
        is_on_its_way(before, answered(probe, answers), id),
    decreases answers.len(),
{
    if answers.len() > 0 && !(probe.turn is Idle) {
        let reply = answers[0].0;
        let now = answers[0].1;
        let next = probe.resumed(reply, now).probe;
        probe_laws::resumed_probe_is_wf(probe, reply, now);
        if probe.turn is Update {
            let idle = ProbeModel { turn: ProbeTurn::Idle, ..probe };
            let session = probe.sessions[id];
            let shared = probe.shared_of(session.target_cfg.core);
            step_goes_its_way(before, idle, id, session.resumed(shared, reply, now), now);
        }
        turn_goes_its_way(before, next, id, answers.drop_first());
    }
}

/// A turn of a probe is over once there were enough answers.
proof fn turn_ends(probe: ProbeModel, answers: Seq<(Reply, Interval)>)
    requires
        probe.wf(),
        answers.len() >= probe_laws::probe_answers_left(probe),
    ensures
        answered(probe, answers).turn is Idle,
    decreases answers.len(),
{
    if !(probe.turn is Idle) {
        if answers.len() > 0 {
            let reply = answers[0].0;
            let now = answers[0].1;
            probe_laws::resumed_probe_is_wf(probe, reply, now);
            probe_laws::probes_move_on(probe, reply, now);
            turn_ends(probe.resumed(reply, now).probe, answers.drop_first());
        } else {
            probe_laws::busy_probe_waits(probe);
        }
    }
}

/// A whole turn of a connected probe is one turn of the session that is scheduled, which
/// is updated when it begins. The schedule stays as it is and moves on by one place, and
/// no other session changes; or the connection is given up, and the schedule starts over.
pub proof fn whole_turn_moves_the_schedule_on(probe: ProbeModel, course: Course)
    requires
        probe.wf(),
        probe.turn is Idle,
        probe.active,
        course.answers.len() >= 23,
    ensures
        ({
            let end = turn_taken(probe, course);
            &&& end.wf()
            &&& end.turn is Idle
            &&& end.schedule == probe.schedule
            &&& end.active ==> end.next == probe_model::advanced(probe.next, probe.schedule.len())
            &&& !end.active ==> end.next == 0
            &&& end.active ==> end.sessions.dom() == probe.sessions.dom()
            &&& forall|other: ProxySessionId| #[trigger]
                probe.sessions.contains_key(other) && end.active && probe.scheduled() != Some(
                    other,
                ) ==> end.sessions[other] == probe.sessions[other]
        }),
        probe.scheduled() matches Some(id) ==> {
            let session = probe.sessions[id];
            let shared = probe.shared_of(session.target_cfg.core);
            probe.serviced(course.now) == probe.session_stepped(
                id,
                session.updated(shared, course.now),
                course.now,
            )
        },
{
    let begun = probe.serviced(course.now).probe;
    probe_laws::serviced_probe_is_wf(probe, course.now);
    probe_laws::probe_work_is_bounded(probe, 0, course.now);
    turn_ends(begun, course.answers);
    match probe.scheduled() {
        Some(id) => {
            let session = probe.sessions[id];
            let shared = probe.shared_of(session.target_cfg.core);
            let outcome = session.updated(shared, course.now);
            step_goes_its_way(probe, probe, id, outcome, course.now);
            turn_goes_its_way(probe, begun, id, course.answers);
        },
        None => {
            advance_ends_the_turn(probe, probe, 0, course.now);
            empty_turn_goes_its_way(probe, begun, course.answers);
        },
    }
}

/// Where nobody is scheduled, no session changes.
proof fn empty_turn_goes_its_way(
    before: ProbeModel,
    probe: ProbeModel,
    answers: Seq<(Reply, Interval)>,
)
    requires
        probe.wf(),
        is_lost(before, probe) || probe.turn is Idle,
    ensures
        answered(probe, answers).wf(),
        is_lost(before, probe) ==> is_lost(before, answered(probe, answers)),
        probe.turn is Idle ==> answered(probe, answers) == probe,
    decreases answers.len(),
{
    if answers.len() > 0 && !(probe.turn is Idle) {
        let next = probe.resumed(answers[0].0, answers[0].1).probe;
        probe_laws::resumed_probe_is_wf(probe, answers[0].0, answers[0].1);
        empty_turn_goes_its_way(before, next, answers.drop_first());
    }
}

/// Whether so many whole turns keep the connection and pass nobody over.
pub open spec fn is_undisturbed(probe: ProbeModel, courses: Seq<Course>, n: nat) -> bool {
    forall|k: nat|
        k <= n ==> {
            let at = #[trigger] turns_taken(probe, courses, k);
            at.active && (k < n ==> !at.suspended(at.next as int))
        }
}

/// As many whole turns as there are places in the schedule, from its start on and as long
/// as the connection is kept and nobody is suspended: each session has one turn, in the
/// order of the schedule, and changes in no other; the schedule is at its start again.
pub proof fn every_session_has_one_turn_in_order(probe: ProbeModel, courses: Seq<Course>)
    requires
        probe.wf(),
        probe.turn is Idle,
        probe.next == 0,
        probe.schedule.len() >= 1,
        forall|i: int|
            0 <= i < probe.schedule.len() ==> probe.sessions.contains_key(
                #[trigger] probe.schedule[i],
            ),
        courses.len() >= probe.schedule.len(),
        forall|i: int|
            0 <= i < courses.len() ==> (#[trigger] courses[i]).answers.len() >= 23,
        is_undisturbed(probe, courses, probe.schedule.len()),
    ensures
        ({
            let n = probe.schedule.len();
            &&& turns_taken(probe, courses, n).next == 0
            &&& turns_taken(probe, courses, n).schedule == probe.schedule
            &&& forall|k: nat|
                k < n ==> {
                    let at = #[trigger] turns_taken(probe, courses, k);
                    &&& at.next == k
                    &&& at.scheduled() == Some(probe.schedule[k as int])
                    &&& only_changed(
                        at,
                        turns_taken(probe, courses, k + 1),
                        probe.schedule[k as int],
                    )
                }
        }),
{
    let n = probe.schedule.len();
    turns_go_on(probe, courses, n);
    assert forall|k: nat| k < n implies {
        let at = #[trigger] turns_taken(probe, courses, k);
        &&& at.next == k
        &&& at.scheduled() == Some(probe.schedule[k as int])
        &&& only_changed(at, turns_taken(probe, courses, k + 1), probe.schedule[k as int])
    } by {
        turns_go_on(probe, courses, k);
        let at = turns_taken(probe, courses, k);
        assert(!at.suspended(at.next as int));
        assert(turns_taken(probe, courses, k + 1).active);
        assert(probe.sessions.contains_key(probe.schedule[k as int]));
        whole_turn_moves_the_schedule_on(at, courses[k as int]);
        assert(turns_taken(probe, courses, k + 1) == turn_taken(at, courses[k as int]));
    }
}

/// So many undisturbed turns move the schedule on by so many places.
proof fn turns_go_on(probe: ProbeModel, courses: Seq<Course>, k: nat)
    requires
        probe.wf(),
        probe.turn is Idle,
        probe.next == 0,
        probe.schedule.len() >= 1,
        k <= probe.schedule.len() <= courses.len(),
        forall|i: int|
            0 <= i < courses.len() ==> (#[trigger] courses[i]).answers.len() >= 23,
        is_undisturbed(probe, courses, probe.schedule.len()),
    ensures
        ({
            let at = turns_taken(probe, courses, k);
            &&& at.wf()
            &&& at.turn is Idle
            &&& at.active
            &&& at.schedule == probe.schedule
            &&& at.sessions.dom() == probe.sessions.dom()
            &&& at.next == (if k < probe.schedule.len() {
                k
            } else {
                0
            })
        }),
    decreases k,
{
    assert(turns_taken(probe, courses, k).active);
    if k > 0 {
        turns_go_on(probe, courses, (k - 1) as nat);
        let at = turns_taken(probe, courses, (k - 1) as nat);
        whole_turn_moves_the_schedule_on(at, courses[k - 1]);
    }
}

/// A session is never suspended by a bootloader that has once stopped: such a session is
/// marked, the mark stays whatever is done for the probe, and nobody waits for it.
pub proof fn bootloader_that_stopped_suspends_nobody(
    probe: ProbeModel,
    bootloader: ProxySessionId,
    other: ProxySessionId,
    place: int,
    k: int,
    reply: Reply,
    now: Interval,
)
    requires
        probe.wf(),
        probe.sessions.contains_key(bootloader),
    ensures
        probe.sessions[bootloader].state is Stopped || probe.sessions[bootloader].state is Shutdown
            ==> probe.sessions[bootloader].completed,
        probe.sessions[bootloader].completed && probe.schedule[k] == bootloader
            ==> !probe.waits_for(place, k),
        probe.sessions[bootloader].completed ==> {
            &&& probe.turn is Idle ==> is_marked_if_there(probe.serviced(now).probe, bootloader)
            &&& probe.turn is Idle ==> is_marked_if_there(
                probe.session_shut_down(other).probe,
                bootloader,
            )
            &&& probe.turn is Idle ==> is_marked_if_there(probe.all_shut_down().probe, bootloader)
            &&& is_marked_if_there(probe.resumed(reply, now).probe, bootloader)
        },
{
    let session = probe.sessions[bootloader];
    let shared = probe.shared_of(session.target_cfg.core);
    session_laws::completion_is_not_taken_back(session, shared, reply, now);
    probe_laws::other_sessions_are_left_alone(probe, bootloader, reply, now);
    if probe.turn is Idle {
        if probe.active && probe.scheduled() == Some(bootloader) {
            marked_session_stays(probe, bootloader, session.updated(shared, now), now);
        }
    } else if probe.turn == ProbeTurn::<SessionModel>::Update(bootloader) {
        let idle = ProbeModel { turn: ProbeTurn::Idle, ..probe };
        marked_session_stays(idle, bootloader, session.resumed(shared, reply, now), now);
    }
}

/// Whether a session is marked, unless it is gone.
pub open spec fn is_marked_if_there(probe: ProbeModel, id: ProxySessionId) -> bool {
    probe.sessions.contains_key(id) ==> probe.sessions[id].completed
}

/// A session that is marked after a step is marked in the probe.
proof fn marked_session_stays(
    probe: ProbeModel,
    id: ProxySessionId,
    outcome: Outcome,
    now: Interval,
)
    ensures
        ({
            let next = probe.session_stepped(id, outcome, now).probe;
            &&& next.sessions.contains_key(id)
            &&& next.sessions[id].completed == outcome.session.completed
        }),
{
    let stepped = probe.stepped(id, outcome);
    assert(stepped.sessions.contains_key(id));
}

} // verus!
