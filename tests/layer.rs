use vnlayer::animation::AnimationType;
use vnlayer::easing::{Easing, PROGRESS_ONE};
use vnlayer::layer::{LayerCommand, LayerModel, LayerState};

const SECOND: u64 = 1_000_000_000;

fn animate(duration: u64, to: AnimationType, follow_up: Vec<LayerCommand>) -> LayerCommand {
    LayerCommand::LayerAnimate { duration, to, easing: Easing::Linear, follow_up }
}

#[test]
fn new_layer_is_idle_and_empty() {
    let layer = LayerModel::new(7);
    assert_eq!(layer.layer_no, 7);
    assert_eq!(layer.filename, None);
    assert!(layer.entries.is_empty());
    assert_eq!(layer.origin, (0, 0));
    assert_eq!(layer.opacity, 0);
    assert_eq!(layer.blur_radius, (0, 0));
    assert_eq!(layer.state(), LayerState::Idle);
    assert_eq!(layer.queued(), 0);
    assert_eq!(layer.active_animations(), 0);
    assert_eq!(LayerState::default(), LayerState::Idle);
}

#[test]
fn scenario_a_move_animation() {
    let mut layer = LayerModel::new(0);
    layer.send(animate(2 * SECOND, AnimationType::MoveTo(10, 20), vec![]));
    layer.poll(0);
    assert_eq!(layer.origin, (0, 0));
    layer.poll(SECOND);
    assert_eq!(layer.origin, (5, 10));
    assert_eq!(layer.active_animations(), 1);
    layer.poll(2 * SECOND);
    assert_eq!(layer.origin, (10, 20));
    assert_eq!(layer.active_animations(), 0);
}

#[test]
fn scenario_a_follow_up_runs_on_completion() {
    let mut layer = LayerModel::new(0);
    layer.send(animate(
        2 * SECOND,
        AnimationType::MoveTo(10, 20),
        vec![LayerCommand::LayerBlur(3, 4)],
    ));
    layer.poll(0);
    layer.poll(SECOND);
    assert_eq!(layer.blur_radius, (0, 0));
    layer.poll(2 * SECOND);
    assert_eq!(layer.origin, (10, 20));
    assert_eq!(layer.blur_radius, (3, 4));
    assert_eq!(layer.queued(), 0);
}

#[test]
fn scenario_b_wait_draw() {
    let mut layer = LayerModel::new(0);
    layer.send(LayerCommand::LayerWaitDraw);
    layer.send(LayerCommand::LayerMoveTo(5, 5));
    layer.poll(0);
    assert_eq!(layer.state(), LayerState::WaitDraw);
    assert_eq!(layer.queued(), 1);
    assert_eq!(layer.origin, (0, 0));
    layer.poll(1);
    assert_eq!(layer.origin, (5, 5));
    assert_eq!(layer.state(), LayerState::Idle);
    assert_eq!(layer.queued(), 0);
}

#[test]
fn scenario_c_opacity_animation_then_delay() {
    let mut layer = LayerModel::new(0);
    layer.send(animate(SECOND, AnimationType::Opacity(1000), vec![]));
    layer.send(LayerCommand::LayerDelay(SECOND));
    layer.poll(0);
    assert_eq!(layer.opacity, 0);
    assert_eq!(layer.queued(), 0);
    assert_eq!(layer.active_animations(), 1);
    assert_eq!(layer.state(), LayerState::Timer { wait_until: SECOND });
}

#[test]
fn unblocked_program_drains_in_one_tick() {
    let mut layer = LayerModel::new(0);
    layer.send(LayerCommand::LayerLoadS25(String::from("bg01.s25")));
    layer.send(LayerCommand::LayerLoadEntries(vec![1, 2, 3]));
    layer.send(LayerCommand::LayerMoveTo(-4, 9));
    layer.send(LayerCommand::LayerOpacity(500));
    layer.send(animate(SECOND, AnimationType::MoveBy(10, 10), vec![]));
    layer.send(LayerCommand::LayerBlur(2, 2));
    layer.poll(100);
    assert_eq!(layer.queued(), 0);
    assert_eq!(layer.filename, Some(String::from("bg01.s25")));
    assert_eq!(layer.entries, vec![1, 2, 3]);
    assert_eq!(layer.origin, (-4, 9));
    assert_eq!(layer.opacity, 500);
    assert_eq!(layer.blur_radius, (2, 2));
    assert_eq!(layer.active_animations(), 1);
    layer.poll(100 + SECOND);
    assert_eq!(layer.origin, (6, 19));
}

#[test]
fn delay_holds_then_resumes() {
    let mut layer = LayerModel::new(0);
    layer.send(LayerCommand::LayerDelay(SECOND));
    layer.send(LayerCommand::LayerMoveTo(1, 1));
    layer.poll(10);
    assert_eq!(layer.state(), LayerState::Timer { wait_until: 10 + SECOND });
    layer.poll(10 + SECOND / 2);
    assert_eq!(layer.origin, (0, 0));
    assert_eq!(layer.queued(), 1);
    layer.poll(10 + SECOND - 1);
    assert_eq!(layer.queued(), 1);
    layer.poll(10 + SECOND);
    assert_eq!(layer.origin, (1, 1));
    assert_eq!(layer.queued(), 0);
    assert_eq!(layer.state(), LayerState::Idle);
}

#[test]
fn delay_deadline_saturates() {
    let mut layer = LayerModel::new(0);
    layer.send(LayerCommand::LayerDelay(u64::MAX));
    layer.poll(5);
    assert_eq!(layer.state(), LayerState::Timer { wait_until: u64::MAX });
}

#[test]
fn finalize_settles_everything() {
    let mut layer = LayerModel::new(0);
    layer.send(animate(
        10 * SECOND,
        AnimationType::MoveTo(100, 200),
        vec![LayerCommand::LayerDelay(SECOND), LayerCommand::LayerOpacity(300)],
    ));
    layer.send(LayerCommand::LayerWaitDraw);
    layer.send(LayerCommand::LayerDelay(5 * SECOND));
    layer.send(animate(SECOND, AnimationType::Opacity(900), vec![]));
    layer.poll(0);
    assert_eq!(layer.state(), LayerState::WaitDraw);
    layer.finalize();
    layer.poll(1);
    assert_eq!(layer.queued(), 0);
    assert_eq!(layer.active_animations(), 0);
    assert_eq!(layer.state(), LayerState::Idle);
    assert_eq!(layer.origin, (100, 200));
    assert_eq!(layer.opacity, 300);
}

#[test]
fn finalize_is_one_shot() {
    let mut layer = LayerModel::new(0);
    layer.finalize();
    layer.poll(0);
    layer.send(LayerCommand::LayerDelay(SECOND));
    layer.send(LayerCommand::LayerMoveTo(3, 3));
    layer.poll(1);
    assert_eq!(layer.state(), LayerState::Timer { wait_until: 1 + SECOND });
    assert_eq!(layer.origin, (0, 0));
}

#[test]
fn clear_keeps_queue_and_animations() {
    let mut layer = LayerModel::new(0);
    layer.send(LayerCommand::LayerLoadS25(String::from("a.s25")));
    layer.send(LayerCommand::LayerLoadEntries(vec![4]));
    layer.send(animate(SECOND, AnimationType::MoveTo(10, 0), vec![]));
    layer.send(LayerCommand::LayerClear);
    layer.send(LayerCommand::LayerWaitDraw);
    layer.send(LayerCommand::LayerMoveTo(0, 7));
    layer.poll(0);
    assert_eq!(layer.filename, None);
    assert!(layer.entries.is_empty());
    assert_eq!(layer.active_animations(), 1);
    assert_eq!(layer.queued(), 1);
}

#[test]
fn completed_animation_releases_timer() {
    let mut layer = LayerModel::new(0);
    layer.send(animate(SECOND, AnimationType::MoveTo(10, 10), vec![]));
    layer.send(LayerCommand::LayerDelay(100 * SECOND));
    layer.send(LayerCommand::LayerBlur(1, 1));
    layer.poll(0);
    assert_eq!(layer.state(), LayerState::Timer { wait_until: 100 * SECOND });
    layer.poll(SECOND);
    assert_eq!(layer.origin, (10, 10));
    assert_eq!(layer.blur_radius, (1, 1));
    assert_eq!(layer.state(), LayerState::Idle);
}

#[test]
fn zero_duration_animation_is_guarded() {
    let mut layer = LayerModel::new(0);
    layer.send(animate(0, AnimationType::MoveTo(8, 8), vec![]));
    layer.poll(50);
    assert_eq!(layer.origin, (0, 0));
    assert_eq!(layer.active_animations(), 1);
    layer.poll(51);
    assert_eq!(layer.origin, (8, 8));
    assert_eq!(layer.active_animations(), 0);
}

#[test]
fn move_by_saturates() {
    let mut layer = LayerModel::new(0);
    layer.send(LayerCommand::LayerMoveTo(i64::MAX - 1, 0));
    layer.send(animate(SECOND, AnimationType::MoveBy(10, -10), vec![]));
    layer.finalize();
    layer.poll(0);
    assert_eq!(layer.origin, (i64::MAX, -10));
}

#[test]
fn eased_animation_uses_curve() {
    let mut layer = LayerModel::new(0);
    layer.send(LayerCommand::LayerAnimate {
        duration: 2 * SECOND,
        to: AnimationType::Opacity(1000),
        easing: Easing::QuadIn,
        follow_up: vec![],
    });
    layer.poll(0);
    layer.poll(SECOND);
    assert_eq!(layer.opacity, 250);
}

#[test]
fn interpolate_identity_and_ends() {
    let a = AnimationType::MoveTo(3, -7);
    for t in [-5, 0, 1, PROGRESS_ONE / 3, PROGRESS_ONE, PROGRESS_ONE * 2] {
        assert_eq!(a.interpolate(&a, t), a);
    }
    let o = AnimationType::Opacity(42);
    assert_eq!(o.interpolate(&o, PROGRESS_ONE / 2), o);
    let b = AnimationType::MoveTo(13, 3);
    assert_eq!(a.interpolate(&b, 0), a);
    assert_eq!(a.interpolate(&b, PROGRESS_ONE), b);
    assert_eq!(a.interpolate(&b, PROGRESS_ONE / 2), AnimationType::MoveTo(8, -2));
    assert_eq!(a.interpolate(&b, -1), a);
    assert_eq!(a.interpolate(&b, PROGRESS_ONE + 1), b);
    let wide = AnimationType::MoveTo(i64::MIN, i64::MAX);
    let other = AnimationType::MoveTo(i64::MAX, i64::MIN);
    assert_eq!(wide.interpolate(&other, PROGRESS_ONE), other);
    assert_eq!(wide.interpolate(&other, 0), wide);
}

#[test]
fn easing_values() {
    assert_eq!(Easing::Linear.apply(123_456), 123_456);
    assert_eq!(Easing::QuadIn.apply(PROGRESS_ONE / 2), 250_000);
    assert_eq!(Easing::QuadOut.apply(PROGRESS_ONE / 2), 750_000);
    assert_eq!(Easing::QuadIn.apply(PROGRESS_ONE), PROGRESS_ONE);
    assert_eq!(Easing::QuadOut.apply(0), 0);
}
