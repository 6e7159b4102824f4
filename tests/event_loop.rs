use jstime::event_loop::{Context, TickAction, MAX_SLEEP_MS, POLL_INTERVAL_MS};
use jstime::requests::{HostFault, PendingRequests, Response};
use jstime::timers::TimerQueue;

fn drain(ctx: &mut Context<u32, &'static str>, now: u128) -> Vec<&'static str> {
    ctx.complete_tick(None, now).unwrap().fired
}

#[test]
fn timers_fire_in_fire_time_order() {
    let t: u128 = 1_000;
    let mut ctx: Context<u32, &'static str> = Context::new();
    ctx.set_timeout("fifty", t, 50);
    ctx.set_timeout("ten", t, 10);
    let mut order: Vec<&'static str> = Vec::new();
    let mut now = t;
    let mut ticks = 0;
    loop {
        match ctx.next_action(now) {
            TickAction::Finished => break,
            TickAction::FireTimers { sleep_ms } => {
                now += sleep_ms;
                order.extend(drain(&mut ctx, now));
            }
            TickAction::AwaitResponse { .. } => panic!("no request was made"),
        }
        ticks += 1;
        assert!(ticks < 10);
    }
    assert_eq!(order, vec!["ten", "fifty"]);
    assert_eq!(now, t + 50);
}

#[test]
fn finished_only_after_both_timers_fired() {
    let t: u128 = 500;
    let mut ctx: Context<u32, &'static str> = Context::new();
    ctx.set_timeout("fifty", t, 50);
    ctx.set_timeout("ten", t, 10);
    assert_eq!(ctx.next_action(t), TickAction::FireTimers { sleep_ms: 10 });
    assert_eq!(drain(&mut ctx, t + 10), vec!["ten"]);
    assert_eq!(ctx.next_action(t + 10), TickAction::FireTimers { sleep_ms: 40 });
    assert_eq!(drain(&mut ctx, t + 50), vec!["fifty"]);
    assert_eq!(ctx.next_action(t + 50), TickAction::Finished);
}

#[test]
fn equal_fire_times_keep_insertion_order() {
    let mut ctx: Context<u32, &'static str> = Context::new();
    assert_eq!(ctx.set_timeout("a", 0, 30), 0);
    assert_eq!(ctx.set_timeout("b", 0, 20), 0);
    assert_eq!(ctx.set_timeout("c", 10, 20), 2);
    assert_eq!(ctx.set_timeout("d", 0, 30), 3);
    assert_eq!(ctx.set_timeout("e", 0, 5), 0);
    assert_eq!(drain(&mut ctx, 100), vec!["e", "b", "a", "c", "d"]);
    assert!(!ctx.has_work());
}

#[test]
fn only_due_timers_fire() {
    let mut ctx: Context<u32, &'static str> = Context::new();
    ctx.set_timeout("late", 0, 200);
    ctx.set_timeout("early", 0, 100);
    assert_eq!(drain(&mut ctx, 99), Vec::<&str>::new());
    assert_eq!(drain(&mut ctx, 100), vec!["early"]);
    assert_eq!(ctx.timers.len(), 1);
    assert_eq!(ctx.timers.next_fire_at(), Some(200));
}

#[test]
fn overdue_timer_sleeps_zero() {
    let mut ctx: Context<u32, &'static str> = Context::new();
    ctx.set_timeout("x", 100, 10);
    assert_eq!(ctx.next_action(500), TickAction::FireTimers { sleep_ms: 0 });
}

#[test]
fn fire_time_saturates() {
    let mut ctx: Context<u32, &'static str> = Context::new();
    ctx.set_timeout("x", u128::MAX - 5, 10);
    assert_eq!(ctx.timers.next_fire_at(), Some(u128::MAX));
}

#[test]
fn responses_settle_their_own_handles() {
    let mut ctx: Context<&'static str, &'static str> = Context::new();
    assert_eq!(ctx.fetch("h1"), Ok(1));
    assert_eq!(ctx.fetch("h2"), Ok(2));
    assert_eq!(ctx.fetch("h3"), Ok(3));
    let mut settled = Vec::new();
    for (id, status) in [(2u32, 202u16), (3, 303), (1, 101)] {
        assert_eq!(ctx.next_action(0), TickAction::AwaitResponse { timeout_ms: None });
        let out = ctx
            .complete_tick(Some(Response { id, result: Ok(status) }), 0)
            .unwrap();
        settled.push(out.settled.unwrap());
    }
    assert_eq!(
        settled,
        vec![("h2", Ok(202)), ("h3", Ok(303)), ("h1", Ok(101))]
    );
    assert_eq!(ctx.next_action(0), TickAction::Finished);
}

#[test]
fn failed_request_is_rejected_with_its_cause() {
    let mut ctx: Context<&'static str, &'static str> = Context::new();
    let id = ctx.fetch("h").unwrap();
    let out = ctx
        .complete_tick(Some(Response { id, result: Err("connection refused".to_string()) }), 0)
        .unwrap();
    assert_eq!(out.settled, Some(("h", Err("connection refused".to_string()))));
    assert!(!ctx.has_work());
}

#[test]
fn unknown_response_id_is_a_fault() {
    let mut ctx: Context<&'static str, &'static str> = Context::new();
    let id = ctx.fetch("h").unwrap();
    let r = ctx.complete_tick(Some(Response { id: 7, result: Ok(200) }), 0);
    assert_eq!(r.err(), Some(HostFault::UnknownRequest(7)));
    assert_eq!(ctx.pending.len(), 1);
    assert_eq!(ctx.next_action(0), TickAction::AwaitResponse { timeout_ms: None });
    let out = ctx.complete_tick(Some(Response { id, result: Ok(200) }), 0).unwrap();
    assert_eq!(out.settled, Some(("h", Ok(200))));
}

#[test]
fn second_response_for_an_id_is_a_fault() {
    let mut ctx: Context<&'static str, &'static str> = Context::new();
    let id = ctx.fetch("h").unwrap();
    assert!(ctx.complete_tick(Some(Response { id, result: Ok(200) }), 0).is_ok());
    let r = ctx.complete_tick(Some(Response { id, result: Ok(200) }), 0);
    assert_eq!(r.err(), Some(HostFault::UnknownRequest(id)));
}

#[test]
fn finished_stays_finished() {
    let mut ctx: Context<u32, &'static str> = Context::new();
    assert_eq!(ctx.next_action(0), TickAction::Finished);
    let out = ctx.complete_tick(None, 1_000).unwrap();
    assert!(out.settled.is_none());
    assert!(out.fired.is_empty());
    assert_eq!(ctx.next_action(u128::MAX), TickAction::Finished);
    assert!(!ctx.has_work());
}

#[test]
fn pending_request_with_timers_polls() {
    let mut ctx: Context<u32, &'static str> = Context::new();
    ctx.fetch(9).unwrap();
    ctx.set_timeout("t", 0, 1_000);
    assert_eq!(
        ctx.next_action(0),
        TickAction::AwaitResponse { timeout_ms: Some(POLL_INTERVAL_MS) }
    );
    assert_eq!(POLL_INTERVAL_MS, 100);
    let out = ctx.complete_tick(None, 1_000).unwrap();
    assert_eq!(out.fired, vec!["t"]);
    assert_eq!(ctx.next_action(1_000), TickAction::AwaitResponse { timeout_ms: None });
}

#[test]
fn request_ids_count_up_and_are_not_reused() {
    let mut p: PendingRequests<u8> = PendingRequests::new();
    assert!(p.is_empty());
    assert_eq!(p.register(10), Ok(1));
    assert_eq!(p.register(20), Ok(2));
    assert_eq!(p.take(1), Ok(10));
    assert_eq!(p.register(30), Ok(3));
    assert_eq!(p.take(1), Err(HostFault::UnknownRequest(1)));
    assert_eq!(p.len(), 2);
}

#[test]
fn timer_queue_starts_empty() {
    let q: TimerQueue<u8> = TimerQueue::new();
    assert!(q.empty());
    assert_eq!(q.next_fire_at(), None);
}

#[test]
fn distinct_delays_fire_in_ascending_order() {
    let mut ctx: Context<u32, u32> = Context::new();
    for (cb, delay) in [(1u32, 30u128), (2, 5), (3, 20), (4, 10), (5, 25)] {
        ctx.set_timeout(cb, 1_000, delay);
    }
    let mut fired = Vec::new();
    for now in [1_004u128, 1_010, 1_024, 1_030] {
        fired.extend(ctx.complete_tick(None, now).unwrap().fired);
    }
    assert_eq!(fired, vec![2, 4, 3, 5, 1]);
    assert_eq!(ctx.next_action(1_030), TickAction::Finished);
}

#[test]
fn far_timer_sleeps_in_bounded_steps() {
    let mut ctx: Context<u32, &'static str> = Context::new();
    ctx.set_timeout("far", 0, u128::MAX);
    assert_eq!(MAX_SLEEP_MS, 60_000);
    assert_eq!(ctx.next_action(0), TickAction::FireTimers { sleep_ms: MAX_SLEEP_MS });
    assert_eq!(drain(&mut ctx, MAX_SLEEP_MS), Vec::<&str>::new());
    ctx.set_timeout("near", 0, 90_000);
    assert_eq!(ctx.next_action(60_000), TickAction::FireTimers { sleep_ms: 30_000 });
}
