use vstd::prelude::*;

use crate::animation::interpolated;

use crate::layer::{
    animation_done, apply_value, drive_loop, drive_measure, drive_step, drive_stops, lemma_drive_step_measure,
    lemma_tick_facts, poll_spec, redraw_done, sweep, sweep_one, tick_spec, update_spec, Animation,
    LayerCommand, LayerState, LayerView,
};

verus! {

broadcast use vstd::std_specs::vec::group_vec_axioms, vstd::seq::group_seq_axioms;

/// `c` holds no `LayerDelay` and no `LayerWaitDraw`, also among its follow-ups.
pub open spec fn never_blocks(c: LayerCommand) -> bool
    decreases c,
{
    match c {
        LayerCommand::LayerDelay(_) => false,
        LayerCommand::LayerWaitDraw => false,
        LayerCommand::LayerAnimate { follow_up, .. } => all_never_block(follow_up@),
        _ => true,
    }
}

/// No command of `s` can block, also among follow-ups.
pub open spec fn all_never_block(s: Seq<LayerCommand>) -> bool
    decreases s,
{
    if s.len() == 0 {
        true
    } else {
        all_never_block(s.subrange(0, s.len() - 1)) && never_blocks(s[s.len() - 1])
    }
}

proof fn lemma_all_never_block(s: Seq<LayerCommand>)
    ensures
        all_never_block(s) <==> none_blocks(s),
    decreases s.len(),
{
    if s.len() > 0 {
        let p = s.subrange(0, s.len() - 1);
        lemma_all_never_block(p);
        if none_blocks(s) {
            assert forall|i: int| 0 <= i < p.len() implies #[trigger] never_blocks(p[i]) by {
                assert(p[i] == s[i]);
            }
            assert(never_blocks(s[s.len() - 1]));
            assert(all_never_block(p));
        }
        if all_never_block(s) {
            assert forall|i: int| 0 <= i < s.len() implies #[trigger] never_blocks(s[i]) by {
                if i < p.len() {
                    assert(p[i] == s[i]);
                }
            }
        }
    }
}

/// No command of `s` can block.
pub open spec fn none_blocks(s: Seq<LayerCommand>) -> bool {
    forall|i: int| 0 <= i < s.len() ==> #[trigger] never_blocks(s[i])
}

/// No follow-up list of `s` holds a command that can block.
pub open spec fn no_follow_up_blocks(s: Seq<Animation>) -> bool {
    forall|i: int| 0 <= i < s.len() ==> none_blocks(#[trigger] s[i].follow_up@)
}

spec fn unblocked(v: LayerView) -> bool {
    &&& v.state == LayerState::Idle
    &&& none_blocks(v.queue)
    &&& no_follow_up_blocks(v.animations)
}

proof fn lemma_sweep_unblocked(v: LayerView, anims: Seq<Animation>, n: nat, now: u64)
    requires
        n <= anims.len(),
        unblocked(v),
        no_follow_up_blocks(anims),
    ensures
        unblocked(sweep(v, anims, n, now)),
    decreases n,
{
    if n > 0 {
        let m = (n - 1) as nat;
        lemma_sweep_unblocked(v, anims, m, now);
        let w = sweep(v, anims, m, now);
        let a = anims[m as int];
        assert(none_blocks(a.follow_up@));
        let r = sweep_one(w, a, now);
        assert(none_blocks(r.queue)) by {
            if w.finalize || animation_done(a, now) {
                assert forall|i: int| 0 <= i < r.queue.len() implies #[trigger] never_blocks(
                    r.queue[i],
                ) by {
                    if i >= w.queue.len() {
                        assert(r.queue[i] == a.follow_up@[i - w.queue.len()]);
                    }
                }
            }
        }
        assert(no_follow_up_blocks(r.animations)) by {
            assert forall|i: int| 0 <= i < r.animations.len() implies none_blocks(
                #[trigger] r.animations[i].follow_up@,
            ) by {
                if w.finalize || animation_done(a, now) {
                    assert(apply_value(w, a.to).animations == w.animations);
                    assert(r.animations == w.animations);
                    assert(none_blocks(w.animations[i].follow_up@));
                } else if i < w.animations.len() {
                    assert(r.animations[i] == w.animations[i]);
                    assert(none_blocks(w.animations[i].follow_up@));
                } else {
                    assert(apply_value(w, interpolated(a.from, a.to, 0)).animations == w.animations);
                    assert(r.animations[i] == a);
                }
            }
        }
    }
}

proof fn lemma_step_unblocked(v: LayerView, now: u64)
    requires
        unblocked(v),
    ensures
        unblocked(drive_step(v, now)),
{
    let u = update_spec(v, now);
    if v.queue.len() > 0 {
        let c = v.queue[0];
        assert(never_blocks(c));
        let rest = LayerView { queue: v.queue.drop_first(), ..v };
        assert(none_blocks(rest.queue)) by {
            assert forall|i: int| 0 <= i < rest.queue.len() implies #[trigger] never_blocks(
                rest.queue[i],
            ) by {
                assert(rest.queue[i] == v.queue[i + 1]);
            }
        }
        assert(no_follow_up_blocks(u.animations)) by {
            assert forall|i: int| 0 <= i < u.animations.len() implies none_blocks(
                #[trigger] u.animations[i].follow_up@,
            ) by {
                if i < v.animations.len() {
                    assert(u.animations[i] == v.animations[i]);
                    assert(none_blocks(v.animations[i].follow_up@));
                } else {
                    match c {
                        LayerCommand::LayerAnimate { follow_up, .. } => {
                            assert(u.animations[i].follow_up == follow_up);
                            lemma_all_never_block(follow_up@);
                        },
                        _ => {
                            assert(u.animations == v.animations);
                            assert(none_blocks(v.animations[i].follow_up@));
                        },
                    }
                }
            }
        }
    }
    assert(unblocked(u));
    let u0 = LayerView { animations: Seq::empty(), ..u };
    lemma_sweep_unblocked(u0, u.animations, u.animations.len(), now);
}

proof fn lemma_loop_drains(v: LayerView, now: u64)
    requires
        unblocked(v),
    ensures
        drive_loop(v, now).queue.len() == 0,
    decreases drive_measure(v),
{
    let next = drive_step(v, now);
    lemma_step_unblocked(v, now);
    if !drive_stops(next) {
        lemma_drive_step_measure(v, now);
        lemma_loop_drains(next, now);
    }
}

/// A tick on a layer that is not waiting on a timer, whose queue and pending
/// follow-ups hold no delay and no wait for redraw, runs the whole queue.
pub proof fn unblocked_program_drains(v: LayerView, now: u64)
    requires
        !(v.state is Timer),
        none_blocks(v.queue),
        no_follow_up_blocks(v.animations),
    ensures
        poll_spec(v, now).queue.len() == 0,
{
    lemma_loop_drains(redraw_done(v), now);
}

proof fn lemma_sweep_quiet(v: LayerView, anims: Seq<Animation>, n: nat, now: u64)
    requires
        n <= anims.len(),
        !v.finalize,
        forall|i: int| 0 <= i < anims.len() ==> !animation_done(#[trigger] anims[i], now),
    ensures
        sweep(v, anims, n, now).queue == v.queue,
        sweep(v, anims, n, now).state == v.state,
        sweep(v, anims, n, now).finalize == v.finalize,
    decreases n,
{
    if n > 0 {
        lemma_sweep_quiet(v, anims, (n - 1) as nat, now);
    }
}

/// While a delay runs (its deadline not reached, no fast-forward armed, and no
/// animation completing to release the layer), a tick leaves the queue untouched
/// and the layer blocked.
pub proof fn delay_holds_queue(v: LayerView, now: u64)
    requires
        v.state is Timer,
        now < v.state->wait_until,
        !v.finalize,
        forall|i: int|
            0 <= i < v.animations.len() ==> !animation_done(#[trigger] v.animations[i], now),
    ensures
        poll_spec(v, now).queue == v.queue,
        poll_spec(v, now).state == v.state,
{
    let v0 = LayerView { animations: Seq::empty(), ..v };
    lemma_sweep_quiet(v0, v.animations, v.animations.len(), now);
    assert(update_spec(v, now) == v);
    assert(drive_stops(drive_step(v, now)));
}

/// Once the deadline of a delay is reached, a tick releases the layer with the
/// queue's front command still in front, and the drive loop goes on from there,
/// so that command is interpreted in this tick.
pub proof fn delay_resumes(v: LayerView, now: u64)
    requires
        v.state is Timer,
        now >= v.state->wait_until,
        !v.finalize,
        v.queue.len() > 0,
    ensures
        tick_spec(v, now).state == LayerState::Idle,
        tick_spec(v, now).queue.len() > 0,
        tick_spec(v, now).queue[0] == v.queue[0],
        poll_spec(v, now) == (LayerView { finalize: false, ..drive_loop(tick_spec(v, now), now) }),
{
    lemma_tick_facts(v, now);
    let u = tick_spec(v, now);
    assert(u.queue[0] == u.queue.subrange(0, v.queue.len() as int)[0]);
    assert(update_spec(v, now) == v);
    assert(drive_step(v, now) == u);
}

/// The layer with the targets of the first `n` animations of `anims` written in
/// turn.
pub open spec fn targets_written(v: LayerView, anims: Seq<Animation>, n: nat) -> LayerView
    decreases n,
{
    if n == 0 {
        v
    } else {
        apply_value(targets_written(v, anims, (n - 1) as nat), anims[n - 1].to)
    }
}

proof fn lemma_sweep_snaps(v: LayerView, anims: Seq<Animation>, n: nat, now: u64)
    requires
        n <= anims.len(),
        v.finalize,
    ensures
        sweep(v, anims, n, now).origin == targets_written(v, anims, n).origin,
        sweep(v, anims, n, now).opacity == targets_written(v, anims, n).opacity,
        sweep(v, anims, n, now).finalize,
    decreases n,
{
    if n > 0 {
        lemma_sweep_snaps(v, anims, (n - 1) as nat, now);
    }
}

/// With fast-forward armed, a tick writes the target of every animation in flight,
/// in order, in place of an interpolated value.
pub proof fn finalize_snaps_to_targets(v: LayerView, now: u64)
    requires
        v.finalize,
    ensures
        tick_spec(v, now).origin == targets_written(v, v.animations, v.animations.len()).origin,
        tick_spec(v, now).opacity == targets_written(v, v.animations, v.animations.len()).opacity,
{
    let v0 = LayerView { animations: Seq::empty(), ..v };
    lemma_sweep_snaps(v0, v.animations, v.animations.len(), now);
    lemma_targets_ignore_animations(v, v0, v.animations, v.animations.len());
}

proof fn lemma_targets_ignore_animations(
    v: LayerView,
    w: LayerView,
    anims: Seq<Animation>,
    n: nat,
)
    requires
        v.origin == w.origin,
        v.opacity == w.opacity,
    ensures
        targets_written(v, anims, n).origin == targets_written(w, anims, n).origin,
        targets_written(v, anims, n).opacity == targets_written(w, anims, n).opacity,
    decreases n,
{
    if n > 0 {
        lemma_targets_ignore_animations(v, w, anims, (n - 1) as nat);
    }
}

proof fn lemma_loop_settles(v: LayerView, now: u64)
    requires
        v.finalize,
    ensures
        drive_loop(v, now).queue.len() == 0,
        drive_loop(v, now).animations.len() == 0,
        drive_loop(v, now).state == LayerState::Idle,
    decreases drive_measure(v),
{
    let next = drive_step(v, now);
    lemma_tick_facts(update_spec(v, now), now);
    if !drive_stops(next) {
        lemma_drive_step_measure(v, now);
        lemma_loop_settles(next, now);
    }
}

/// A tick with fast-forward armed runs the whole queue and completes every
/// animation: nothing stays queued or in flight and the layer is idle.
pub proof fn finalize_settles(v: LayerView, now: u64)
    ensures
        poll_spec(LayerView { finalize: true, ..v }, now).queue.len() == 0,
        poll_spec(LayerView { finalize: true, ..v }, now).animations.len() == 0,
        poll_spec(LayerView { finalize: true, ..v }, now).state == LayerState::Idle,
        !poll_spec(LayerView { finalize: true, ..v }, now).finalize,
{
    lemma_loop_settles(redraw_done(LayerView { finalize: true, ..v }), now);
}

} // verus!
