use vstd::prelude::*;

use std::collections::VecDeque;

use crate::animation::{interpolated, variants_match, AnimationType};
use crate::easing::{eased, Easing, PROGRESS_ONE};

verus! {

broadcast use vstd::std_specs::vec::group_vec_axioms, vstd::seq::group_seq_axioms;

/// Blocking state of a layer. Times are nanoseconds on the caller's clock.
#[derive(Clone, Copy, Debug, PartialEq, Eq, Structural)]
pub enum LayerState {
    /// Ready to take the next command.
    Idle,
    /// Blocked until the next tick begins.
    WaitDraw,
    /// Blocked until the clock reaches `wait_until`.
    Timer { wait_until: u64 },
}

impl Default for LayerState {
    fn default() -> (r: LayerState)
        ensures
            r == LayerState::Idle,
    {
        LayerState::Idle
    }
}

/// One instruction of a layer's program. Durations are nanoseconds; positions
/// and opacities are fixed-point values whose scale the caller chooses.
#[derive(Debug)]
pub enum LayerCommand {
    LayerClear,
    LayerLoadS25(String),
    LayerLoadEntries(Vec<i32>),
    LayerDelay(u64),
    LayerMoveTo(i64, i64),
    LayerOpacity(i64),
    LayerBlur(i32, i32),
    LayerWaitDraw,
    LayerAnimate { duration: u64, to: AnimationType, easing: Easing, follow_up: Vec<LayerCommand> },
}

/// An animation in flight, from `from` at `start_time` to `to` at
/// `start_time + duration`; `follow_up` is queued when it completes.
#[derive(Debug)]
pub struct Animation {
    pub start_time: u64,
    pub duration: u64,
    pub from: AnimationType,
    pub to: AnimationType,
    pub easing: Easing,
    pub follow_up: Vec<LayerCommand>,
}

/// A recorded animation has a positive duration and two values of one kind.
pub open spec fn animation_wf(a: Animation) -> bool {
    &&& a.duration > 0
    &&& variants_match(a.from, a.to)
}

/// Number of commands in `c`, counting those nested in follow-up lists.
pub open spec fn command_size(c: LayerCommand) -> nat
    decreases c,
{
    match c {
        LayerCommand::LayerAnimate { follow_up, .. } => 1 + commands_size(follow_up@),
        _ => 1,
    }
}

/// Number of commands in `s`, counting nested ones.
pub open spec fn commands_size(s: Seq<LayerCommand>) -> nat
    decreases s,
{
    if s.len() == 0 {
        0
    } else {
        commands_size(s.subrange(0, s.len() - 1)) + command_size(s[s.len() - 1])
    }
}

/// One visual plane: its live properties and its command scheduler.
pub struct LayerModel {
    pub layer_no: i32,
    pub filename: Option<String>,
    pub entries: Vec<i32>,
    pub origin: (i64, i64),
    pub opacity: i64,
    pub blur_radius: (i32, i32),
    pub overlay: Option<String>,
    pub overlay_entries: Vec<i32>,
    pub overlay_rate: i64,
    command_queue: VecDeque<LayerCommand>,
    state: LayerState,
    animations: Vec<Animation>,
    finalize_mode: bool,
}

/// The abstract state of a layer.
pub struct LayerView {
    pub layer_no: i32,
    pub filename: Option<String>,
    pub entries: Seq<i32>,
    pub origin: (i64, i64),
    pub opacity: i64,
    pub blur_radius: (i32, i32),
    pub overlay: Option<String>,
    pub overlay_entries: Seq<i32>,
    pub overlay_rate: i64,
    pub queue: Seq<LayerCommand>,
    pub state: LayerState,
    pub animations: Seq<Animation>,
    pub finalize: bool,
}

impl View for LayerModel {
    type V = LayerView;

    closed spec fn view(&self) -> LayerView {
        LayerView {
            layer_no: self.layer_no,
            filename: self.filename,
            entries: self.entries@,
            origin: self.origin,
            opacity: self.opacity,
            blur_radius: self.blur_radius,
            overlay: self.overlay,
            overlay_entries: self.overlay_entries@,
            overlay_rate: self.overlay_rate,
            queue: self.command_queue@,
            state: self.state,
            animations: self.animations@,
            finalize: self.finalize_mode,
        }
    }
}

/// Every recorded animation is well formed.
pub open spec fn layer_wf(v: LayerView) -> bool {
    forall|i: int| 0 <= i < v.animations.len() ==> animation_wf(#[trigger] v.animations[i])
}

/// `a + b`, limited to the range of `i64`.
pub open spec fn saturating_add_i64(a: i64, b: i64) -> i64 {
    if a + b > i64::MAX {
        i64::MAX
    } else if a + b < i64::MIN {
        i64::MIN
    } else {
        (a + b) as i64
    }
}

/// `a + b`, limited to the range of `u64`.
pub open spec fn saturating_add_u64(a: u64, b: u64) -> u64 {
    if a + b > u64::MAX {
        u64::MAX
    } else {
        (a + b) as u64
    }
}

/// The starting value and absolute target of an animation toward `to`, for a
/// layer at `origin` with `opacity`.
pub open spec fn animation_ends(origin: (i64, i64), opacity: i64, to: AnimationType) -> (
    AnimationType,
    AnimationType,
) {
    match to {
        AnimationType::MoveTo(_, _) => (AnimationType::MoveTo(origin.0, origin.1), to),
        AnimationType::MoveBy(dx, dy) => (
            AnimationType::MoveTo(origin.0, origin.1),
            AnimationType::MoveTo(
                saturating_add_i64(origin.0, dx),
                saturating_add_i64(origin.1, dy),
            ),
        ),
        AnimationType::Opacity(_) => (AnimationType::Opacity(opacity), to),
    }
}

/// Duration of a recorded animation: at least one nanosecond.
pub open spec fn effective_duration(d: u64) -> u64 {
    if d == 0 {
        1
    } else {
        d
    }
}

/// The layer after `c` has been interpreted at time `now`; `v.queue` no longer
/// holds `c`.
pub open spec fn interpret(v: LayerView, c: LayerCommand, now: u64) -> LayerView {
    match c {
        LayerCommand::LayerWaitDraw => LayerView { state: LayerState::WaitDraw, ..v },
        LayerCommand::LayerClear => LayerView { filename: None, entries: Seq::empty(), ..v },
        LayerCommand::LayerLoadS25(f) => LayerView { filename: Some(f), ..v },
        LayerCommand::LayerLoadEntries(e) => LayerView { entries: e@, ..v },
        LayerCommand::LayerMoveTo(x, y) => LayerView { origin: (x, y), ..v },
        LayerCommand::LayerOpacity(o) => LayerView { opacity: o, ..v },
        LayerCommand::LayerBlur(x, y) => LayerView { blur_radius: (x, y), ..v },
        LayerCommand::LayerDelay(d) => if v.finalize {
            LayerView { state: LayerState::Idle, ..v }
        } else {
            LayerView { state: LayerState::Timer { wait_until: saturating_add_u64(now, d) }, ..v }
        },
        LayerCommand::LayerAnimate { duration, to, easing, follow_up } => {
            let ends = animation_ends(v.origin, v.opacity, to);
            let a = Animation {
                start_time: now,
                duration: effective_duration(duration),
                from: ends.0,
                to: ends.1,
                easing,
                follow_up,
            };
            let opacity = match to {
                AnimationType::Opacity(o) => o,
                _ => v.opacity,
            };
            LayerView { opacity, animations: v.animations.push(a), ..v }
        },
    }
}

/// One step of interpretation: when idle, the front command is taken and applied.
pub open spec fn update_spec(v: LayerView, now: u64) -> LayerView {
    if v.state != LayerState::Idle || v.queue.len() == 0 {
        v
    } else {
        interpret(LayerView { queue: v.queue.drop_first(), ..v }, v.queue[0], now)
    }
}

/// Whether `a` has run its full course at time `now`.
pub open spec fn animation_done(a: Animation, now: u64) -> bool {
    now as int >= a.start_time as int + a.duration as int
}

/// Linear progress of `a` at `now`, in units of `PROGRESS_ONE`.
pub open spec fn progress(a: Animation, now: u64) -> int {
    (now - a.start_time) * PROGRESS_ONE as int / a.duration as int
}

/// The layer with `value` written into the property that it animates.
pub open spec fn apply_value(v: LayerView, value: AnimationType) -> LayerView {
    match value {
        AnimationType::MoveTo(x, y) => LayerView { origin: (x, y), ..v },
        AnimationType::Opacity(o) => LayerView { opacity: o, ..v },
        AnimationType::MoveBy(_, _) => v,
    }
}

/// Releases whatever blocks the queue. Every completed animation does so, whatever
/// set the blocking state.
pub open spec fn release(v: LayerView) -> LayerView {
    LayerView { state: LayerState::Idle, ..v }
}

/// The layer after the sweep has visited `a`: a completed one (or any one under
/// fast-forward) snaps to its target, queues its follow-ups, releases the layer
/// and is dropped; another is kept, and once started writes its eased value.
pub open spec fn sweep_one(v: LayerView, a: Animation, now: u64) -> LayerView {
    if v.finalize || animation_done(a, now) {
        release(LayerView { queue: v.queue + a.follow_up@, ..apply_value(v, a.to) })
    } else if now < a.start_time {
        LayerView { animations: v.animations.push(a), ..v }
    } else {
        let value = interpolated(a.from, a.to, eased(a.easing, progress(a, now)));
        LayerView { animations: v.animations.push(a), ..apply_value(v, value) }
    }
}

/// The sweep over the first `n` animations of `anims`, starting from `v`.
pub open spec fn sweep(v: LayerView, anims: Seq<Animation>, n: nat, now: u64) -> LayerView
    decreases n,
{
    if n == 0 {
        v
    } else {
        sweep_one(sweep(v, anims, (n - 1) as nat, now), anims[n - 1], now)
    }
}

/// The blocking state re-evaluated after the sweep.
pub open spec fn settle_state(v: LayerView, now: u64) -> LayerView {
    match v.state {
        LayerState::Idle => v,
        LayerState::WaitDraw => if v.finalize {
            release(v)
        } else {
            v
        },
        LayerState::Timer { wait_until } => if v.finalize || now >= wait_until {
            release(v)
        } else {
            v
        },
    }
}

/// Advances every animation to `now`, follow_up re-evaluates the blocking state.
pub open spec fn tick_spec(v: LayerView, now: u64) -> LayerView {
    settle_state(
        sweep(LayerView { animations: Seq::empty(), ..v }, v.animations, v.animations.len(), now),
        now,
    )
}

/// The blocking state after the pre-step of a tick: a pending wait for redraw is
/// over, since a frame has been drawn since the previous tick.
pub open spec fn redraw_done(v: LayerView) -> LayerView {
    if v.state == LayerState::WaitDraw {
        release(v)
    } else {
        v
    }
}

/// Number of commands held by the follow-up lists of `s`.
pub open spec fn animations_size(s: Seq<Animation>) -> nat
    decreases s.len(),
{
    if s.len() == 0 {
        0
    } else {
        animations_size(s.drop_last()) + commands_size(s.last().follow_up@)
    }
}

/// Commands that remain to be interpreted, queued or held by animations.
pub open spec fn pending_size(v: LayerView) -> nat {
    commands_size(v.queue) + animations_size(v.animations)
}

/// Decreases with every pass of the drive loop that goes on to another pass.
pub open spec fn drive_measure(v: LayerView) -> nat {
    3 * pending_size(v) + (if v.queue.len() == 0 {
        1nat
    } else {
        0nat
    }) + (if v.state == LayerState::Idle {
        0nat
    } else {
        1nat
    })
}

/// One pass of the drive loop.
pub open spec fn drive_step(v: LayerView, now: u64) -> LayerView {
    tick_spec(update_spec(v, now), now)
}

/// Whether the drive loop stops after a pass that reached `v`.
pub open spec fn drive_stops(v: LayerView) -> bool {
    (!v.finalize && v.state != LayerState::Idle) || v.queue.len() == 0
}

/// The drive loop: passes until the layer blocks (outside fast-forward) or the
/// queue is empty.
pub open spec fn drive_loop(v: LayerView, now: u64) -> LayerView
    decreases drive_measure(v),
    via drive_loop_decreases
{
    let next = drive_step(v, now);
    if drive_stops(next) {
        next
    } else {
        drive_loop(next, now)
    }
}

#[via_fn]
proof fn drive_loop_decreases(v: LayerView, now: u64) {
    let next = drive_step(v, now);
    if !drive_stops(next) {
        lemma_drive_step_measure(v, now);
    }
}

/// A whole tick at time `now`: pre-step, drive loop, and fast-forward disarmed.
pub open spec fn poll_spec(v: LayerView, now: u64) -> LayerView {
    LayerView { finalize: false, ..drive_loop(redraw_done(v), now) }
}

proof fn lemma_commands_size_concat(a: Seq<LayerCommand>, b: Seq<LayerCommand>)
    ensures
        commands_size(a + b) == commands_size(a) + commands_size(b),
    decreases b.len(),
{
    if b.len() == 0 {
        assert(a + b =~= a);
    } else {
        let b2 = b.subrange(0, b.len() - 1);
        lemma_commands_size_concat(a, b2);
        assert((a + b).subrange(0, (a + b).len() - 1) =~= a + b2);
        assert(b.subrange(0, b.len() - 1) =~= b2);
    }
}

proof fn lemma_commands_size_front(s: Seq<LayerCommand>)
    requires
        s.len() > 0,
    ensures
        commands_size(s) == command_size(s[0]) + commands_size(s.drop_first()),
{
    let one = seq![s[0]];
    lemma_commands_size_concat(one, s.drop_first());
    assert(one + s.drop_first() =~= s);
    assert(one.subrange(0, 0) =~= Seq::<LayerCommand>::empty());
    assert(commands_size(one) == commands_size(one.subrange(0, 0)) + command_size(s[0]));
}

proof fn lemma_animations_size_push(s: Seq<Animation>, a: Animation)
    ensures
        animations_size(s.push(a)) == animations_size(s) + commands_size(a.follow_up@),
{
    assert(s.push(a).drop_last() =~= s);
}

/// The sweep keeps the pending commands, keeps the queue as a prefix, and can
/// only release the blocking state; it never changes the fast-forward flag.
proof fn lemma_sweep_facts(v: LayerView, anims: Seq<Animation>, n: nat, now: u64)
    requires
        n <= anims.len(),
    ensures
        pending_size(sweep(v, anims, n, now)) == pending_size(v) + animations_size(
            anims.subrange(0, n as int),
        ),
        sweep(v, anims, n, now).queue.len() >= v.queue.len(),
        sweep(v, anims, n, now).state == v.state || sweep(v, anims, n, now).state
            == LayerState::Idle,
        sweep(v, anims, n, now).finalize == v.finalize,
        sweep(v, anims, n, now).queue.subrange(0, v.queue.len() as int) == v.queue,
        v.finalize ==> sweep(v, anims, n, now).animations == v.animations,
    decreases n,
{
    if n == 0 {
        assert(anims.subrange(0, 0).len() == 0);
    } else {
        let m = (n - 1) as nat;
        lemma_sweep_facts(v, anims, m, now);
        let w = sweep(v, anims, m, now);
        let a = anims[m as int];
        assert(anims.subrange(0, n as int) =~= anims.subrange(0, m as int).push(a));
        lemma_animations_size_push(anims.subrange(0, m as int), a);
        lemma_animations_size_push(w.animations, a);
        lemma_commands_size_concat(w.queue, a.follow_up@);
        let r = sweep(v, anims, n, now);
        assert(r.queue.subrange(0, v.queue.len() as int) =~= w.queue.subrange(
            0,
            v.queue.len() as int,
        ));
    }
}

pub(crate) proof fn lemma_tick_facts(v: LayerView, now: u64)
    ensures
        pending_size(tick_spec(v, now)) == pending_size(v),
        tick_spec(v, now).queue.len() >= v.queue.len(),
        tick_spec(v, now).state == v.state || tick_spec(v, now).state == LayerState::Idle,
        tick_spec(v, now).finalize == v.finalize,
        v.finalize ==> tick_spec(v, now).state == LayerState::Idle,
        v.finalize ==> tick_spec(v, now).animations.len() == 0,
        tick_spec(v, now).queue.subrange(0, v.queue.len() as int) == v.queue,
{
    let v0 = LayerView { animations: Seq::empty(), ..v };
    lemma_sweep_facts(v0, v.animations, v.animations.len(), now);
    assert(v.animations.subrange(0, v.animations.len() as int) =~= v.animations);
}

pub(crate) proof fn lemma_drive_step_measure(v: LayerView, now: u64)
    requires
        !drive_stops(drive_step(v, now)),
    ensures
        drive_measure(drive_step(v, now)) < drive_measure(v),
{
    let u = update_spec(v, now);
    lemma_tick_facts(u, now);
    if v.state == LayerState::Idle && v.queue.len() > 0 {
        let c = v.queue[0];
        lemma_commands_size_front(v.queue);
        let rest = v.queue.drop_first();
        match c {
            LayerCommand::LayerAnimate { duration, to, easing, follow_up } => {
                let ends = animation_ends(v.origin, v.opacity, to);
                let a = Animation {
                    start_time: now,
                    duration: effective_duration(duration),
                    from: ends.0,
                    to: ends.1,
                    easing,
                    follow_up,
                };
                lemma_animations_size_push(v.animations, a);
            },
            _ => {},
        }
        assert(pending_size(u) + 1 <= pending_size(v));
    }
}

fn saturating_add_signed(a: i64, b: i64) -> (r: i64)
    ensures
        r == saturating_add_i64(a, b),
{
    match a.checked_add(b) {
        Some(s) => s,
        None => if b > 0 {
            i64::MAX
        } else {
            i64::MIN
        },
    }
}

proof fn lemma_progress_below_one(elapsed: int, duration: int)
    requires
        0 <= elapsed < duration,
        duration <= u64::MAX,
    ensures
        0 <= elapsed * PROGRESS_ONE as int / duration < PROGRESS_ONE,
        elapsed * PROGRESS_ONE as int <= u64::MAX * 1_000_000,
{
    assert(0 <= elapsed * 1_000_000 / duration < 1_000_000) by (nonlinear_arith)
        requires
            0 <= elapsed < duration,
    ;
    assert(elapsed * 1_000_000 <= u64::MAX * 1_000_000) by (nonlinear_arith)
        requires
            0 <= elapsed < duration,
            duration <= u64::MAX,
    ;
}

impl LayerModel {
    /// An idle layer with empty properties and nothing queued.
    pub fn new(layer_no: i32) -> (r: LayerModel)
        ensures
            r@ == (LayerView {
                layer_no,
                filename: None,
                entries: Seq::empty(),
                origin: (0, 0),
                opacity: 0,
                blur_radius: (0, 0),
                overlay: None,
                overlay_entries: Seq::empty(),
                overlay_rate: 0,
                queue: Seq::empty(),
                state: LayerState::Idle,
                animations: Seq::empty(),
                finalize: false,
            }),
            layer_wf(r@),
    {
        LayerModel {
            layer_no,
            filename: None,
            entries: Vec::new(),
            origin: (0, 0),
            opacity: 0,
            blur_radius: (0, 0),
            overlay: None,
            overlay_entries: Vec::new(),
            overlay_rate: 0,
            command_queue: VecDeque::new(),
            state: LayerState::Idle,
            animations: Vec::new(),
            finalize_mode: false,
        }
    }

    /// Current blocking state.
    pub fn state(&self) -> (r: LayerState)
        ensures
            r == self@.state,
    {
        self.state
    }

    /// Number of queued commands.
    pub fn queued(&self) -> (r: usize)
        ensures
            r == self@.queue.len(),
    {
        self.command_queue.len()
    }

    /// Number of animations in flight.
    pub fn active_animations(&self) -> (r: usize)
        ensures
            r == self@.animations.len(),
    {
        self.animations.len()
    }

    /// Appends a command to the queue.
    pub fn send(&mut self, command: LayerCommand)
        ensures
            final(self)@ == (LayerView { queue: old(self)@.queue.push(command), ..old(self)@ }),
    {
        self.command_queue.push_back(command);
    }

    /// Arms fast-forward for the next tick.
    pub fn finalize(&mut self)
        ensures
            final(self)@ == (LayerView { finalize: true, ..old(self)@ }),
    {
        self.finalize_mode = true;
    }

    /// Moves `follow_up` to the back of the queue, in order.
    fn queue_all(&mut self, follow_up: Vec<LayerCommand>)
        ensures
            final(self)@ == (LayerView { queue: old(self)@.queue + follow_up@, ..old(self)@ }),
    {
        let mut rest = follow_up;
        let ghost all = rest@;
        while rest.len() > 0
            invariant
                all == follow_up@,
                0 <= rest@.len() <= all.len(),
                rest@ == all.subrange(all.len() - rest@.len(), all.len() as int),
                self@ == (LayerView {
                    queue: old(self)@.queue + all.subrange(0, all.len() - rest@.len()),
                    ..old(self)@
                }),
            decreases rest.len(),
        {
            let c = rest.remove(0);
            self.command_queue.push_back(c);
            proof {
                let k = all.len() - rest@.len();
                assert(all.subrange(0, k) =~= all.subrange(0, k - 1).push(c));
                assert(rest@ =~= all.subrange(k, all.len() as int));
            }
        }
        proof {
            assert(all.subrange(0, all.len() as int) =~= all);
        }
    }

    fn write_value(&mut self, value: AnimationType)
        ensures
            final(self)@ == apply_value(old(self)@, value),
    {
        match value {
            AnimationType::MoveTo(x, y) => {
                self.origin = (x, y);
            },
            AnimationType::Opacity(o) => {
                self.opacity = o;
            },
            AnimationType::MoveBy(_, _) => {},
        }
    }

    /// Advances every animation to time `now`, follow_up re-evaluates the blocking state.
    fn tick(&mut self, now: u64)
        requires
            layer_wf(old(self)@),
        ensures
            final(self)@ == tick_spec(old(self)@, now),
            layer_wf(final(self)@),
    {
        let mut pending: Vec<Animation> = Vec::new();
        std::mem::swap(&mut pending, &mut self.animations);
        let ghost anims = pending@;
        let ghost start = LayerView { animations: Seq::empty(), ..old(self)@ };
        assert(self@ == start);
        while pending.len() > 0
            invariant
                0 <= pending@.len() <= anims.len(),
                anims == old(self)@.animations,
                layer_wf(old(self)@),
                pending@ == anims.subrange(anims.len() - pending@.len(), anims.len() as int),
                self@ == sweep(start, anims, (anims.len() - pending@.len()) as nat, now),
                layer_wf(self@),
            decreases pending.len(),
        {
            let ghost k = anims.len() - pending@.len();
            let ghost before = self@;
            let a = pending.remove(0);
            assert(a == anims[k]);
            assert(animation_wf(a));
            assert(pending@ =~= anims.subrange(k + 1, anims.len() as int));
            if self.finalize_mode || (now >= a.start_time && now - a.start_time >= a.duration) {
                self.write_value(a.to);
                self.state = LayerState::Idle;
                self.queue_all(a.follow_up);
            } else if now < a.start_time {
                self.animations.push(a);
            } else {
                let elapsed: u64 = now - a.start_time;
                proof {
                    lemma_progress_below_one(elapsed as int, a.duration as int);
                }
                let t: i64 = ((elapsed as u128) * (PROGRESS_ONE as u128) / (
                a.duration as u128)) as i64;
                let e = a.easing.apply(t);
                let value = a.from.interpolate(&a.to, e);
                self.write_value(value);
                self.animations.push(a);
            }
            assert(self@ == sweep_one(before, anims[k], now));
        }
        assert(self@ == sweep(start, anims, anims.len() as nat, now));
        match self.state {
            LayerState::Idle => {},
            LayerState::WaitDraw => {
                if self.finalize_mode {
                    self.state = LayerState::Idle;
                }
            },
            LayerState::Timer { wait_until } => {
                if self.finalize_mode || now >= wait_until {
                    self.state = LayerState::Idle;
                }
            },
        }
    }

    /// Runs one tick at time `now`: a pending wait for redraw ends, then commands
    /// are interpreted and animations advanced until the layer blocks or the queue
    /// is empty (under fast-forward: until the queue is empty); fast-forward is
    /// disarmed at the end.
    pub fn poll(&mut self, now: u64)
        requires
            layer_wf(old(self)@),
        ensures
            final(self)@ == poll_spec(old(self)@, now),
            layer_wf(final(self)@),
    {
        if self.state == LayerState::WaitDraw {
            self.state = LayerState::Idle;
        }
        let ghost first = self@;
        assert(first == redraw_done(old(self)@));
        loop
            invariant_except_break
                drive_loop(first, now) == drive_loop(self@, now),
            invariant
                layer_wf(self@),
            ensures
                self@ == drive_loop(first, now),
                layer_wf(self@),
            decreases drive_measure(self@),
        {
            let ghost before = self@;
            self.update(now);
            self.tick(now);
            assert(self@ == drive_step(before, now));
            assert(drive_stops(self@) ==> drive_loop(before, now) == self@);
            assert(!drive_stops(self@) ==> drive_loop(before, now) == drive_loop(self@, now));
            if (!self.finalize_mode && self.state != LayerState::Idle)
                || self.command_queue.len() == 0 {
                break;
            }
            proof {
                lemma_drive_step_measure(before, now);
            }
        }
        self.finalize_mode = false;
    }

    /// When idle, takes the front command and interprets it at time `now`.
    pub fn update(&mut self, now: u64)
        requires
            layer_wf(old(self)@),
        ensures
            final(self)@ == update_spec(old(self)@, now),
            layer_wf(final(self)@),
    {
        if self.state != LayerState::Idle {
            return;
        }
        match self.command_queue.pop_front() {
            None => {},
            Some(command) => match command {
                LayerCommand::LayerWaitDraw => {
                    self.state = LayerState::WaitDraw;
                },
                LayerCommand::LayerClear => {
                    self.filename = None;
                    self.entries = Vec::new();
                },
                LayerCommand::LayerLoadS25(filename) => {
                    self.filename = Some(filename);
                },
                LayerCommand::LayerLoadEntries(entries) => {
                    self.entries = entries;
                },
                LayerCommand::LayerMoveTo(x, y) => {
                    self.origin = (x, y);
                },
                LayerCommand::LayerOpacity(opacity) => {
                    self.opacity = opacity;
                },
                LayerCommand::LayerBlur(x, y) => {
                    self.blur_radius = (x, y);
                },
                LayerCommand::LayerDelay(t) => {
                    if self.finalize_mode {
                        self.state = LayerState::Idle;
                    } else {
                        self.state = LayerState::Timer { wait_until: now.saturating_add(t) };
                    }
                },
                LayerCommand::LayerAnimate { duration, to, easing, follow_up } => {
                    let (from, target) = match to {
                        AnimationType::MoveTo(_, _) => (
                            AnimationType::MoveTo(self.origin.0, self.origin.1),
                            to,
                        ),
                        AnimationType::MoveBy(dx, dy) => (
                            AnimationType::MoveTo(self.origin.0, self.origin.1),
                            AnimationType::MoveTo(
                                saturating_add_signed(self.origin.0, dx),
                                saturating_add_signed(self.origin.1, dy),
                            ),
                        ),
                        AnimationType::Opacity(opacity) => {
                            let opacity_from = self.opacity;
                            self.opacity = opacity;
                            (AnimationType::Opacity(opacity_from), to)
                        },
                    };
                    let duration = if duration == 0 {
                        1
                    } else {
                        duration
                    };
                    self.animations.push(
                        Animation { start_time: now, duration, from, to: target, easing, follow_up },
                    );
                },
            },
        }
        proof {
            assert(layer_wf(self@));
        }
    }
}

} // verus!
