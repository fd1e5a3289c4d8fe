use screwdriver::processor::{needs_backoff, Chunk, LoopParams, Plan, Processor, Tick};

fn no_loop() -> LoopParams {
    LoopParams { looping: false, loop_in: None, loop_out: None }
}

fn playing() -> Tick {
    Tick { stop: false, seek: None, playing: true, loop_params: no_loop() }
}

#[test]
fn feeds_consecutive_chunks_until_the_end() {
    let mut p = Processor::new(3);
    assert_eq!(p.delay_remaining, 6);
    let len = 5000;
    assert_eq!(
        p.plan(&playing(), len),
        Plan::Feed { seeked: None, wrapped: None, chunk: Chunk { start: 0, end: 2048, is_final: false } }
    );
    assert_eq!(
        p.plan(&playing(), len),
        Plan::Feed { seeked: None, wrapped: None, chunk: Chunk { start: 2048, end: 4096, is_final: false } }
    );
    assert_eq!(
        p.plan(&playing(), len),
        Plan::Feed { seeked: None, wrapped: None, chunk: Chunk { start: 4096, end: 5000, is_final: true } }
    );
    assert_eq!(p.plan(&playing(), len), Plan::Wait { seeked: None, wrapped: None });
    assert_eq!(p.pos, 5000);
}

#[test]
fn stop_leaves_everything_as_it_is() {
    let mut p = Processor { pos: 10, delay_remaining: 4 };
    let t = Tick { stop: true, seek: Some(99), playing: true, loop_params: no_loop() };
    assert_eq!(p.plan(&t, 1000), Plan::Stop);
    assert_eq!(p, Processor { pos: 10, delay_remaining: 4 });
}

#[test]
fn paused_rounds_only_seek() {
    let mut p = Processor { pos: 10, delay_remaining: 0 };
    let t = Tick { stop: false, seek: None, playing: false, loop_params: no_loop() };
    assert_eq!(p.plan(&t, 1000), Plan::Paused { seeked: None });
    assert_eq!(p.pos, 10);
    let t = Tick { seek: Some(500), ..t };
    assert_eq!(p.plan(&t, 1000), Plan::Paused { seeked: Some(500) });
    assert_eq!(p.pos, 500);
}

#[test]
fn seeks_stop_at_the_last_frame() {
    let mut p = Processor { pos: 0, delay_remaining: 0 };
    let t = Tick { seek: Some(1_000_000), ..playing() };
    assert_eq!(p.plan(&t, 1000), Plan::Feed {
        seeked: Some(1_000_000),
        wrapped: None,
        chunk: Chunk { start: 998, end: 1000, is_final: true },
    });
    let mut q = Processor { pos: 7, delay_remaining: 0 };
    let t = Tick { seek: Some(4), ..playing() };
    assert_eq!(q.plan(&t, 1), Plan::Feed {
        seeked: Some(4),
        wrapped: None,
        chunk: Chunk { start: 0, end: 1, is_final: true },
    });
    assert_eq!(q.pos, 1);
    let t = Tick { seek: Some(0), ..playing() };
    assert_eq!(q.plan(&t, 0), Plan::Wait { seeked: Some(0), wrapped: None });
}

#[test]
fn seeks_read_from_the_target_sample() {
    let mut p = Processor { pos: 0, delay_remaining: 0 };
    let t = Tick { seek: Some(3), ..playing() };
    assert_eq!(p.plan(&t, 8), Plan::Feed {
        seeked: Some(3),
        wrapped: None,
        chunk: Chunk { start: 3, end: 8, is_final: true },
    });
}

#[test]
fn loop_jumps_to_the_in_point_itself() {
    let lp = LoopParams { looping: true, loop_in: Some(101), loop_out: Some(3000) };
    let t = Tick { loop_params: lp, ..playing() };
    let mut p = Processor { pos: 3002, delay_remaining: 0 };
    assert_eq!(p.plan(&t, 10000), Plan::Feed {
        seeked: None,
        wrapped: Some(101),
        chunk: Chunk { start: 101, end: 2149, is_final: false },
    });
}

#[test]
fn loop_sends_position_back_to_in_point() {
    let lp = LoopParams { looping: true, loop_in: Some(100), loop_out: Some(3000) };
    let t = Tick { loop_params: lp, ..playing() };
    let mut p = Processor { pos: 3000, delay_remaining: 0 };
    assert_eq!(p.plan(&t, 10000), Plan::Feed {
        seeked: None,
        wrapped: Some(100),
        chunk: Chunk { start: 100, end: 2148, is_final: false },
    });
    assert_eq!(p.plan(&t, 10000), Plan::Feed {
        seeked: None,
        wrapped: None,
        chunk: Chunk { start: 2148, end: 4196, is_final: false },
    });
    assert_eq!(p.plan(&t, 10000), Plan::Feed {
        seeked: None,
        wrapped: Some(100),
        chunk: Chunk { start: 100, end: 2148, is_final: false },
    });
}

#[test]
fn inactive_loops_do_not_wrap() {
    let mut p = Processor { pos: 5000, delay_remaining: 0 };
    for lp in [
        LoopParams { looping: false, loop_in: Some(0), loop_out: Some(100) },
        LoopParams { looping: true, loop_in: None, loop_out: Some(100) },
        LoopParams { looping: true, loop_in: Some(0), loop_out: None },
        LoopParams { looping: true, loop_in: Some(100), loop_out: Some(100) },
    ] {
        p.pos = 5000;
        let t = Tick { loop_params: lp, ..playing() };
        assert_eq!(p.plan(&t, 6000), Plan::Feed {
            seeked: None,
            wrapped: None,
            chunk: Chunk { start: 5000, end: 6000, is_final: true },
        });
    }
}

#[test]
fn seek_then_loop_in_one_round() {
    let lp = LoopParams { looping: true, loop_in: Some(10), loop_out: Some(20) };
    let t = Tick { seek: Some(50), loop_params: lp, ..playing() };
    let mut p = Processor { pos: 0, delay_remaining: 0 };
    assert_eq!(p.plan(&t, 100), Plan::Feed {
        seeked: Some(50),
        wrapped: Some(10),
        chunk: Chunk { start: 10, end: 100, is_final: true },
    });
}

#[test]
fn start_delay_is_dropped_exactly_once() {
    let mut p = Processor::new(5);
    assert_eq!(p.take_delay(4), 4);
    assert_eq!(p.take_delay(4), 4);
    assert_eq!(p.take_delay(4), 2);
    assert_eq!(p.take_delay(4), 0);
    assert_eq!(p.delay_remaining, 0);
    p.restart_delay(1);
    assert_eq!(p.delay_remaining, 2);
    assert_eq!(p.take_delay(0), 0);
    assert_eq!(p.take_delay(10), 2);
}

#[test]
fn backs_off_when_ring_is_nearly_full() {
    assert!(needs_backoff(0));
    assert!(needs_backoff(4095));
    assert!(!needs_backoff(4096));
}
