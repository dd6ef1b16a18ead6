use voxel_game::engine::mesh::MeshData;
use voxel_game::engine::utils::clock::{Clock, MAX_DURATION_NANOS};
use voxel_game::game::ecs::components::Controller;
use voxel_game::game::game::{block_edit, handle_key, Key, KeyEffect, MouseButton};

#[test]
fn mesh_add_offsets_indices() {
    let mut m: MeshData<char> = MeshData::new();
    m.add(vec!['a', 'b', 'c', 'd'], vec![2, 3, 1, 1, 0, 2]);
    assert_eq!(m.indices, vec![2, 3, 1, 1, 0, 2]);
    m.add(vec!['e', 'f', 'g', 'h'], vec![2, 3, 1, 1, 0, 2]);
    assert_eq!(m.vertices, vec!['a', 'b', 'c', 'd', 'e', 'f', 'g', 'h']);
    assert_eq!(m.indices, vec![2, 3, 1, 1, 0, 2, 6, 7, 5, 5, 4, 6]);
}

#[test]
fn clock_fixed_steps() {
    let mut c = Clock::new(16);
    assert_eq!(c.accumulator, 1_000_000_000);
    assert_eq!(c.elapsed, 0);
    assert_eq!(c.max_ups, 16_000_000);
    let mut updates = 0;
    while c.should_update() {
        c.update();
        updates += 1;
    }
    assert_eq!(updates, 62);
    assert_eq!(c.accumulator, 8_000_000);
    c.advance(9_000_000);
    assert_eq!(c.elapsed, 9_000_000);
    assert_eq!(c.accumulator, 17_000_000);
    assert!(c.should_update());
    c.update();
    assert_eq!(c.accumulator, 1_000_000);
}

#[test]
fn clock_readjust_measures_a_frame() {
    let mut c = Clock::new(5);
    let before = c.accumulator;
    c.readjust();
    assert_eq!(c.max_ups, 5_000_000);
    assert_eq!(c.accumulator, before + c.elapsed);
    assert!(c.elapsed() <= MAX_DURATION_NANOS);
    let _ = c.get_timer();
}

#[test]
fn clock_readjust_caps_accumulated_time() {
    let mut c = Clock::new(5);
    c.accumulator = MAX_DURATION_NANOS;
    c.readjust();
    assert_eq!(c.accumulator, MAX_DURATION_NANOS);
    assert!(c.elapsed <= MAX_DURATION_NANOS);
}

#[test]
fn controller_keys() {
    let mut c = Controller::new();
    assert_eq!(c.axes(), (0, 0, 0));
    assert_eq!(handle_key(&mut c, Key::W, true), KeyEffect::Nothing);
    assert!(c.forward);
    assert_eq!(c.axes(), (0, 0, 1));
    handle_key(&mut c, Key::A, true);
    handle_key(&mut c, Key::LShift, true);
    assert_eq!(c.axes(), (-1, 1, 1));
    handle_key(&mut c, Key::Space, true);
    assert_eq!(c.axes(), (-1, 0, 1));
    handle_key(&mut c, Key::W, false);
    handle_key(&mut c, Key::S, true);
    handle_key(&mut c, Key::D, true);
    assert_eq!(c.axes(), (0, 0, -1));
    let before = c;
    assert_eq!(handle_key(&mut c, Key::P, true), KeyEffect::ToggleMouseGrab);
    assert_eq!(handle_key(&mut c, Key::P, false), KeyEffect::Nothing);
    assert_eq!(handle_key(&mut c, Key::Escape, false), KeyEffect::Exit);
    assert_eq!(handle_key(&mut c, Key::Other, true), KeyEffect::Nothing);
    assert_eq!(c, before);
}

#[test]
fn mouse_edits() {
    assert_eq!(block_edit(MouseButton::Right, (4, 5, 6), (0, 1, 0)), ((4, 6, 6), 2));
    assert_eq!(block_edit(MouseButton::Left, (4, 5, 6), (0, 1, 0)), ((4, 5, 6), 0));
    assert_eq!(block_edit(MouseButton::Other, (4, 5, 6), (-1, 0, 0)), ((4, 5, 6), 0));
}

#[test]
fn debug_console_visibility() {
    let mut d = voxel_game::engine::ui::Debug::new();
    assert!(!d.is_shown());
    d.switch();
    assert!(d.is_shown());
    d.switch();
    assert!(!d.is_shown());
    d.show();
    d.show();
    assert!(d.is_shown());
    d.close();
    assert!(!d.is_shown());
}
