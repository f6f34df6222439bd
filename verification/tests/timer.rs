use prism::timer::{
    worker_wait, TickAction, TimerClient, TimerParams, TimerService, TimerSet, WorkerWait,
    SLEEP_CHUNK,
};

fn params(delay: u128, interval: Option<u128>, group: Option<u32>) -> TimerParams<u32> {
    TimerParams { delay, interval, exec_immediately: false, group_id: group, callback: 0 }
}

fn run_tick(service: &mut TimerService<u32>, client: &mut TimerClient<u32>, now: u128) -> Vec<u32> {
    let mut ran = Vec::new();
    loop {
        match service.tick(client, now) {
            TickAction::Run(id) => {
                *service.callback(id).unwrap() += 1;
                ran.push(id);
            }
            TickAction::Continue => {}
            TickAction::Done => return ran,
        }
    }
}

#[test]
fn one_shot_timer_fires_once() {
    let mut client = TimerClient::new();
    let mut service = TimerService::new();
    let id = client.create_timer(params(10, None, None), 100);
    let commands = client.take_commands();
    assert_eq!(commands.len(), 1);
    assert_eq!(commands[0].id, id);
    assert_eq!(commands[0].deadline, 110);
    assert!(run_tick(&mut service, &mut client, 100).is_empty());
    assert!(client.worker_expired(commands[0]));
    service.report(id);
    assert_eq!(run_tick(&mut service, &mut client, 110), vec![id]);
    service.report(id);
    assert!(run_tick(&mut service, &mut client, 120).is_empty());
    assert!(!client.is_running(id));
}

#[test]
fn repeating_timer_is_scheduled_again() {
    let mut client = TimerClient::new();
    let mut service = TimerService::new();
    let id = client.create_timer(params(10, Some(7), None), 0);
    client.take_commands();
    run_tick(&mut service, &mut client, 0);
    service.report(id);
    assert_eq!(run_tick(&mut service, &mut client, 10), vec![id]);
    let again = client.take_commands();
    assert_eq!(again.len(), 1);
    assert_eq!(again[0].deadline, 17);
    assert!(client.is_running(id));
}

#[test]
fn immediate_timer_runs_at_registration() {
    let mut client = TimerClient::new();
    let mut service = TimerService::new();
    let mut p = params(1000, None, None);
    p.exec_immediately = true;
    let id = client.create_timer(p, 0);
    assert_eq!(run_tick(&mut service, &mut client, 0), vec![id]);
    assert!(client.is_running(id));
}

#[test]
fn destroyed_timer_is_not_dispatched() {
    let mut client = TimerClient::new();
    let mut service = TimerService::new();
    let id = client.create_timer(params(1, None, None), 0);
    run_tick(&mut service, &mut client, 0);
    service.report(id);
    client.destroy(id);
    assert!(run_tick(&mut service, &mut client, 1).is_empty());
}

#[test]
fn paused_timer_keeps_the_time_left() {
    let mut client: TimerClient<u32> = TimerClient::new();
    let mut service = TimerService::new();
    let id = client.create_timer(params(100, None, None), 0);
    let cmd = client.take_commands()[0];
    run_tick(&mut service, &mut client, 0);
    client.pause(id);
    assert!(client.worker_check(cmd, 30));
    assert_eq!(client.paused_remaining(id), Some(70));
    assert!(!client.is_running(id));
    client.resume(id, 500);
    let again = client.take_commands();
    assert_eq!(again.len(), 1);
    assert_eq!(again[0].deadline, 570);
    assert!(!client.worker_check(again[0], 500));
}

#[test]
fn group_goes_together() {
    let mut client: TimerClient<u32> = TimerClient::new();
    let a = client.create_timer(params(1, None, Some(5)), 0);
    let b = client.create_timer(params(1, None, Some(6)), 0);
    let c = client.create_timer(params(1, None, Some(5)), 0);
    client.destroy_group(5);
    assert!(!client.is_running(a));
    assert!(client.is_running(b));
    assert!(!client.is_running(c));
}

#[test]
fn worker_sleeps_in_chunks() {
    let mut client: TimerClient<u32> = TimerClient::new();
    client.create_timer(params(3 * SLEEP_CHUNK, None, None), 0);
    let cmd = client.take_commands()[0];
    assert_eq!(worker_wait(cmd, 0), WorkerWait::Sleep(SLEEP_CHUNK));
    assert_eq!(worker_wait(cmd, 3 * SLEEP_CHUNK - 5), WorkerWait::Sleep(5));
    assert_eq!(worker_wait(cmd, 3 * SLEEP_CHUNK), WorkerWait::Expired);
}

#[test]
fn cleared_set_has_no_timers() {
    let mut client: TimerClient<u32> = TimerClient::new();
    let mut set = TimerSet::new();
    let a = set.create_timer(&mut client, params(1, None, None), 0);
    let b = set.create_timer(&mut client, params(2, None, None), 0);
    let other = client.create_timer(params(3, None, None), 0);
    set.destroy(&mut client, a);
    assert!(!client.is_running(a));
    assert!(client.is_running(b));
    set.pause(&mut client, b);
    assert!(!client.is_running(b));
    set.resume(&mut client, b, 9);
    assert!(client.is_running(b));
    set.clear(&mut client);
    assert!(!client.is_running(b));
    assert!(client.is_running(other));
}

const HOUR: u128 = 3_600_000_000_000;

fn named(name: u32, immediate: bool) -> TimerParams<u32> {
    TimerParams {
        delay: HOUR,
        interval: None,
        exec_immediately: immediate,
        group_id: None,
        callback: name,
    }
}

/// Runs a tick and gives the callbacks that it ran.
fn names_run(service: &mut TimerService<u32>, client: &mut TimerClient<u32>) -> Vec<u32> {
    let mut ran = Vec::new();
    loop {
        match service.tick(client, 0) {
            TickAction::Run(id) => ran.push(*service.callback(id).unwrap()),
            TickAction::Continue => {}
            TickAction::Done => return ran,
        }
    }
}

#[test]
fn reused_slot_runs_the_new_callback() {
    let mut client = TimerClient::new();
    let mut service = TimerService::new();
    let a = client.create_timer(named(7, false), 0);
    assert!(names_run(&mut service, &mut client).is_empty());
    client.destroy(a);
    let b = client.create_timer(named(8, true), 0);
    assert_eq!(a, 0);
    assert_eq!(b, 0);
    assert_eq!(names_run(&mut service, &mut client), vec![8]);
}

#[test]
fn both_immediate_registrations_of_one_slot_run() {
    let mut client = TimerClient::new();
    let mut service = TimerService::new();
    let a = client.create_timer(named(7, true), 0);
    client.destroy(a);
    let b = client.create_timer(named(8, true), 0);
    assert_eq!(a, b);
    assert_eq!(names_run(&mut service, &mut client), vec![7, 8]);
}

#[test]
fn destroyed_callback_is_dropped_at_the_next_tick() {
    let mut client = TimerClient::new();
    let mut service = TimerService::new();
    let a = client.create_timer(named(7, false), 0);
    names_run(&mut service, &mut client);
    assert_eq!(service.callback(a), Some(&mut 7));
    client.destroy(a);
    names_run(&mut service, &mut client);
    assert_eq!(service.callback(a), None);
}

#[test]
fn due_report_goes_by_the_identifier() {
    let mut client = TimerClient::new();
    let mut service = TimerService::new();
    let a = client.create_timer(named(1, false), 0);
    let b = client.create_timer(named(2, false), 0);
    names_run(&mut service, &mut client);
    service.report(a);
    service.report(b);
    // The callback of the first due timer replaces the second.
    let mut ran = Vec::new();
    loop {
        match service.tick(&mut client, 0) {
            TickAction::Run(id) => {
                ran.push(*service.callback(id).unwrap());
                if id == a {
                    client.destroy(b);
                    assert_eq!(client.create_timer(named(3, false), 0), b);
                }
            }
            TickAction::Continue => {}
            TickAction::Done => break,
        }
    }
    // The report means whoever has the slot; what runs is what is registered there.
    assert_eq!(ran, vec![1, 2]);
    assert!(!client.is_running(b));
    service.report(b);
    assert!(names_run(&mut service, &mut client).is_empty());
}

#[test]
fn one_shot_timer_ends_with_its_identifier() {
    let mut client = TimerClient::new();
    let mut service = TimerService::new();
    let a = client.create_timer(named(1, false), 0);
    names_run(&mut service, &mut client);
    client.take_commands();
    service.report(a);
    loop {
        match service.tick(&mut client, 0) {
            TickAction::Run(id) => {
                client.destroy(id);
                assert_eq!(client.create_timer(named(2, false), 5), a);
            }
            TickAction::Continue => {}
            TickAction::Done => break,
        }
    }
    assert!(!client.is_running(a));
    assert_eq!(client.take_commands().len(), 1);
    service.report(a);
    assert!(names_run(&mut service, &mut client).is_empty());
}

#[test]
fn resume_undoes_pause() {
    let mut client: TimerClient<u32> = TimerClient::new();
    let id = client.create_timer(params(100, None, None), 0);
    client.take_commands();
    client.pause(id);
    client.resume(id, 20);
    assert!(client.is_running(id));
    client.resume(id, 30);
    let sent = client.take_commands();
    assert_eq!(sent.len(), 1);
    assert_eq!(sent[0].deadline, 120);
}

#[test]
fn paused_timer_sits_out_the_tick() {
    let mut client = TimerClient::new();
    let mut service = TimerService::new();
    let id = client.create_timer(params(1, Some(1), None), 0);
    run_tick(&mut service, &mut client, 0);
    client.take_commands();
    service.report(id);
    client.pause(id);
    assert!(run_tick(&mut service, &mut client, 1).is_empty());
    assert_eq!(client.paused_remaining(id), Some(1));
    assert!(client.take_commands().is_empty());
    client.resume(id, 5);
    assert!(run_tick(&mut service, &mut client, 5).is_empty());
}

#[test]
fn immediate_timer_runs_once() {
    let mut client = TimerClient::new();
    let mut service = TimerService::new();
    let id = client.create_timer(named(4, true), 0);
    client.take_commands();
    assert_eq!(names_run(&mut service, &mut client), vec![4]);
    assert!(names_run(&mut service, &mut client).is_empty());
    assert!(client.is_running(id));
    assert!(client.take_commands().is_empty());
}

#[test]
fn destroying_twice_is_destroying_once() {
    let mut client: TimerClient<u32> = TimerClient::new();
    let a = client.create_timer(params(1, None, None), 0);
    let b = client.create_timer(params(1, None, None), 0);
    client.destroy(a);
    client.destroy(a);
    client.destroy(99);
    assert!(!client.is_running(a));
    assert!(client.is_running(b));
    let c = client.create_timer(params(1, None, None), 0);
    let d = client.create_timer(params(1, None, None), 0);
    assert_eq!((c, d), (a, 2));
}

#[test]
fn set_forgets_a_destroyed_timer() {
    let mut client: TimerClient<u32> = TimerClient::new();
    let mut set = TimerSet::new();
    let id = set.create_timer(&mut client, params(1, None, None), 0);
    set.destroy(&mut client, id);
    assert_eq!(client.create_timer(params(9, None, None), 0), id);
    set.clear(&mut client);
    assert!(client.is_running(id));
}

#[test]
fn deadlines_stop_at_the_end_of_time() {
    let mut client: TimerClient<u32> = TimerClient::new();
    // Longer than 64 bits of nanoseconds.
    let long = u64::MAX as u128 * 1_000_000_000;
    client.create_timer(params(long, None, None), 7);
    assert_eq!(client.take_commands()[0].deadline, long + 7);
    client.create_timer(params(u128::MAX, None, None), 7);
    assert_eq!(client.take_commands()[0].deadline, u128::MAX);
}
