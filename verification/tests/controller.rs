use easy_shader_runner::single::Single;
use easy_shader_runner::ControllerTrait;
use egui_winit::winit::event::{ElementState, MouseButton};
use glam::{DVec2, UVec2, UVec3, Vec2};

struct Counter {
    size: UVec2,
    frames: u32,
}

impl ControllerTrait for Counter {
    type Constants = [u32; 2];
    type UiState = u8;
    type GraphicsContext = ();

    fn resize(&mut self, size: UVec2) {
        self.size = size;
    }

    fn prepare_render(&mut self, offset: Vec2) -> [u32; 2] {
        self.frames += 1;
        [self.size.x, offset.x as u32]
    }
}

#[test]
fn callbacks_do_nothing_by_default() {
    let mut counter = Counter { size: UVec2::new(1, 2), frames: 0 };
    counter.mouse_move(DVec2::new(1.0, 2.0));
    counter.mouse_scroll(DVec2::new(1.0, 2.0));
    counter.mouse_input(ElementState::Pressed, MouseButton::Left);
    counter.update(|_: UVec3, _: UVec3, _: &[u8]| panic!("no dispatch"), Single { bits: 0 });
    assert!(counter.describe_buffers().is_empty());
    counter.receive_buffers(vec![]);
    let mut state = 3u8;
    counter.ui(&egui::Context::default(), &mut state, &());
    assert_eq!(state, 3);
    assert_eq!(counter.size, UVec2::new(1, 2));
    assert_eq!(counter.frames, 0);
}

#[test]
fn constants_can_be_read_as_bytes() {
    let mut counter = Counter { size: UVec2::new(1, 2), frames: 0 };
    counter.resize(UVec2::new(640, 480));
    let constants = counter.prepare_render(Vec2::new(5.0, 6.0));
    assert_eq!(bytemuck::bytes_of(&constants).len(), 8);
    assert_eq!(constants, [640, 5]);
    assert_eq!(counter.frames, 1);
}
