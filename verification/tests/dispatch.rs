use easy_shader_runner::bind_group::BufferSlot;
use easy_shader_runner::command::{Command, ConstantsTarget};
use easy_shader_runner::dispatch::Extent3;
use easy_shader_runner::features::Features;
use easy_shader_runner::RenderPass;

const MODULE: [u8; 8] = [0x03, 0x02, 0x23, 0x07, 0x01, 0x02, 0x03, 0x04];

fn compute_pass(emulate_constants: bool) -> RenderPass {
    let features = Features { compute: true, emulate_constants };
    let format = wgpu::TextureFormat::Bgra8UnormSrgb;
    RenderPass::new(features, format, &MODULE, &[vec![], vec![]]).0
}

fn count(pass: &RenderPass, dimension: u32, threads: u32) -> u32 {
    let commands = pass.compute(
        Extent3 { x: dimension, y: 1, z: dimension },
        Extent3 { x: threads, y: 1, z: threads },
        &[],
    );
    let mut found = None;
    for command in &commands {
        if let Command::DispatchWorkgroups(size) = command {
            assert_eq!(size.x, size.z);
            assert_eq!(size.y, 1);
            assert!(found.is_none());
            found = Some(size.x);
        }
    }
    found.unwrap()
}

/// The nearest integer to `p / q`, ties to even.
fn nearest(p: u128, q: u128) -> u128 {
    let (below, rest) = (p / q, p % q);
    if 2 * rest < q || (2 * rest == q && below % 2 == 0) {
        below
    } else {
        below + 1
    }
}

/// The ceiling of `p / q` rounded to 24 significant binary digits.
fn ceil_of_rounded(p: u128, q: u128) -> u128 {
    for e in -60i32..12 {
        let up = if e < 0 { 1u128 << -e } else { 1 };
        let down = if e > 0 { 1u128 << e } else { 1 };
        if q * down << 23 <= p * up && p * up < q * down << 24 {
            return (nearest(p * up, q * down) * down).div_ceil(up);
        }
    }
    unreachable!()
}

fn expected(dimension: u32, threads: u32) -> u32 {
    if dimension == 0 {
        return 0;
    }
    if threads == 0 {
        return u32::MAX;
    }
    let d = ceil_of_rounded(dimension as u128, 1);
    let t = ceil_of_rounded(threads as u128, 1);
    ceil_of_rounded(d, t).min(u32::MAX as u128) as u32
}

#[test]
fn dispatch_rounds_up() {
    let pass = compute_pass(false);
    assert_eq!(count(&pass, 100, 32), 4);
    assert_eq!(count(&pass, 96, 32), 3);
    assert_eq!(count(&pass, 97, 32), 4);
    assert_eq!(count(&pass, 1, 64), 1);
    assert_eq!(count(&pass, 0, 64), 0);
    assert_eq!(count(&pass, 1920, 16), 120);
}

#[test]
fn dispatch_covers_small_extents_exactly() {
    let pass = compute_pass(false);
    for d in [1u32, 2, 3, 5, 1023, 1024, 1025, 16_777_213, 16_777_214, 16_777_215, 16_777_216] {
        for t in [1u32, 2, 3, 7, 64, 1000, 16_777_215, 16_777_216] {
            assert_eq!(count(&pass, d, t), d.div_ceil(t));
        }
    }
}

#[test]
fn dispatch_loses_precision_above_the_limit() {
    let pass = compute_pass(false);
    assert_eq!(count(&pass, 16_777_217, 1), 16_777_216);
    assert_eq!(count(&pass, 16_777_219, 1), 16_777_220);
}

#[test]
fn dispatch_of_no_threads() {
    let pass = compute_pass(false);
    assert_eq!(count(&pass, 0, 0), 0);
    assert_eq!(count(&pass, 5, 0), u32::MAX);
    assert_eq!(count(&pass, u32::MAX, 1), u32::MAX);
}

#[test]
fn dispatch_is_single_precision_division() {
    let pass = compute_pass(false);
    let mut seed = 0x2545_f491_4f6c_dd1du64;
    for _ in 0..4000 {
        seed ^= seed << 13;
        seed ^= seed >> 7;
        seed ^= seed << 17;
        let d = (seed >> 32) as u32 >> (seed % 29);
        let t = (seed as u32).rotate_left(9) >> (seed % 31);
        assert_eq!(count(&pass, d, t), expected(d, t));
        assert_eq!(count(&pass, d, t), (d as f32 / t as f32).ceil() as u32);
    }
}

#[test]
fn dispatch_grows_with_the_dimension() {
    let pass = compute_pass(false);
    let extents = [0u32, 1, 31, 32, 33, 16_777_215, 16_777_217, 16_777_219, u32::MAX - 1, u32::MAX];
    for t in extents {
        for pair in extents.windows(2) {
            assert!(count(&pass, pair[0], t) <= count(&pass, pair[1], t));
            assert!(count(&pass, t, pair[0]) >= count(&pass, t, pair[1]));
        }
    }
}

#[test]
fn compute_steps_with_push_constants() {
    let pass = compute_pass(false);
    let data = [1u8, 2, 3, 4];
    let commands = pass.compute(
        Extent3 { x: 9, y: 8, z: 7 },
        Extent3 { x: 4, y: 4, z: 4 },
        &data,
    );
    assert_eq!(
        commands,
        vec![
            Command::CreateEncoder { label: None },
            Command::BeginComputePass { label: None, timestamps: false },
            Command::SetPipeline(easy_shader_runner::pipeline::PipelineKind::Compute),
            Command::SetConstants {
                target: ConstantsTarget::PushConstants { stages: None, first_byte: 0 },
                data: &data,
            },
            Command::SetBindGroup { index: 0, group: 0 },
            Command::SetBindGroup { index: 1, group: 1 },
            Command::DispatchWorkgroups(Extent3 { x: 3, y: 2, z: 2 }),
            Command::EndPass,
            Command::Submit,
        ]
    );
}

#[test]
fn compute_writes_emulated_constants_to_the_second_buffer() {
    let pass = compute_pass(true);
    let data = [7u8; 16];
    let one = Extent3 { x: 1, y: 1, z: 1 };
    let commands = pass.compute(one, one, &data);
    assert_eq!(
        commands[3],
        Command::SetConstants {
            target: ConstantsTarget::Buffer {
                slot: BufferSlot { group: 2, buffer: 1 },
                offset: 0,
            },
            data: &data,
        }
    );
    assert_eq!(commands[6], Command::SetBindGroup { index: 2, group: 2 });
    assert_eq!(commands.len(), 10);
}
