use multipass::image::{apply_op, noise, Op};
use multipass::pipeline::{
    check_pass, check_schedule, FeedbackConfig, FeedbackPipeline, FrameState, PassDesc, Role,
    Target, TICK,
};
use multipass::program::{
    build_program, validate_source, PipelineError, Program, StageReport, UniformName,
};

fn cfg() -> FeedbackConfig {
    FeedbackConfig { reseed_interval: 4, seed: 7, sharpen_strength: 500 }
}

fn ok_report() -> StageReport {
    StageReport { ok: true, log: String::new() }
}

#[test]
fn frame_clock_advances_by_fixed_tick() {
    let mut fs = FrameState::start();
    assert_eq!(fs.time, 0);
    assert_eq!(fs.frame, 0);
    fs.advance();
    assert_eq!(fs.time, TICK);
    assert_eq!(fs.frame, 1);
    fs.advance();
    assert_eq!(fs.time, 2 * TICK);
    assert_eq!(fs.frame, 2);
}

#[test]
fn allocation_failure_is_reported_before_rendering() {
    assert!(matches!(
        FeedbackPipeline::new(0, 8, cfg()),
        Err(PipelineError::ResourceExhaustion)
    ));
    assert!(matches!(
        FeedbackPipeline::new(8, 5000, cfg()),
        Err(PipelineError::ResourceExhaustion)
    ));
    assert!(FeedbackPipeline::new(8, 8, cfg()).is_ok());
}

#[test]
fn ping_pong_source_of_next_frame_is_dest_of_previous() {
    let mut p = FeedbackPipeline::new(4, 4, cfg()).unwrap();
    let mut fs = FrameState::start();
    assert_eq!(p.source_role(), Role::Ping);
    assert_eq!(p.dest_role(), Role::Pong);
    for _ in 0..5 {
        let dest_before = p.dest_role();
        p.step(&fs);
        // the texture written in frame n is the feedback source of n+1
        assert_eq!(p.source_role(), dest_before);
        // and within any frame source and dest are distinct
        assert_ne!(p.source_role(), p.dest_role());
        fs.advance();
    }
}

#[test]
fn reseed_exactly_on_interval_boundaries() {
    let mut p = FeedbackPipeline::new(4, 4, cfg()).unwrap();
    let mut fs = FrameState::start();
    for frame in 0u32..9 {
        let src_before = if p.parity { p.pong.clone() } else { p.ping.clone() };
        p.step(&fs);
        let state_after = if p.parity { p.pong.clone() } else { p.ping.clone() };
        if frame % 4 == 0 {
            // reseed: pseudo-random noise from the seed, prior state discarded
            for y in 0..4 {
                for x in 0..4 {
                    assert_eq!(state_after.data[y][x], noise(x, y, 7));
                }
            }
        } else {
            // every other frame evolves the prior state
            let expected = apply_op(&Op::Evolve, &src_before);
            assert_eq!(state_after.data, expected.data);
        }
        fs.advance();
    }
}

#[test]
fn pipeline_is_deterministic() {
    let mut a = FeedbackPipeline::new(6, 5, cfg()).unwrap();
    let mut b = FeedbackPipeline::new(6, 5, cfg()).unwrap();
    let mut fs = FrameState::start();
    for _ in 0..6 {
        a.step(&fs);
        b.step(&fs);
        assert_eq!(a.ping.data, b.ping.data);
        assert_eq!(a.pong.data, b.pong.data);
        assert_eq!(a.sharp.data, b.sharp.data);
        assert_eq!(a.screen.data, b.screen.data);
        fs.advance();
    }
}

#[test]
fn build_program_fails_fast_with_diagnostics() {
    let bad = StageReport { ok: false, log: String::from("syntax error") };
    let r = build_program(bad, ok_report(), ok_report(), Vec::new());
    match r {
        Err(PipelineError::CompileError { log }) => assert_eq!(log, "syntax error"),
        _ => panic!("expected a compile error"),
    }
    let bad_link = StageReport { ok: false, log: String::from("interface mismatch") };
    let r = build_program(ok_report(), ok_report(), bad_link, Vec::new());
    match r {
        Err(PipelineError::LinkError { log }) => assert_eq!(log, "interface mismatch"),
        _ => panic!("expected a link error"),
    }
    assert!(build_program(ok_report(), ok_report(), ok_report(), Vec::new()).is_ok());
}

#[test]
fn nul_bytes_in_shader_source_are_rejected() {
    assert!(validate_source("void main() {}".as_bytes()).is_ok());
    assert!(validate_source(&[]).is_ok());
    let r = validate_source(&[118, 0, 105]);
    assert!(matches!(r, Err(PipelineError::CompileError { .. })));
}

#[test]
fn uniform_table_lookup_and_validation() {
    let prog = Program {
        uniforms: vec![(UniformName::Time, 0), (UniformName::PassIndex, 2), (
            UniformName::Channel0,
            3,
        )],
    };
    assert_eq!(prog.lookup(UniformName::Time), Some(0));
    assert_eq!(prog.lookup(UniformName::Channel0), Some(3));
    assert_eq!(prog.lookup(UniformName::FrameIndex), None);
    assert!(prog.validate_uniforms(&vec![UniformName::Time, UniformName::Channel0]).is_ok());
    let r = prog.validate_uniforms(&vec![UniformName::Time, UniformName::Channel1]);
    assert!(matches!(r, Err(PipelineError::UniformBindingMismatch)));
}

#[test]
fn self_read_hazard_is_rejected() {
    let hazardous = PassDesc { target: Target::Offscreen { id: 1 }, sources: vec![0, 1] };
    assert!(!check_pass(&hazardous));
    let clean = PassDesc { target: Target::Offscreen { id: 2 }, sources: vec![0, 1] };
    assert!(check_pass(&clean));
    let to_screen = PassDesc { target: Target::Screen, sources: vec![0, 1, 2] };
    assert!(check_pass(&to_screen));
    assert!(check_schedule(&vec![clean, to_screen]));
    let hazardous = PassDesc { target: Target::Offscreen { id: 1 }, sources: vec![0, 1] };
    let to_screen = PassDesc { target: Target::Screen, sources: vec![0] };
    assert!(!check_schedule(&vec![hazardous, to_screen]));
}
