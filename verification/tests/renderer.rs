use biosim::creature::Creature;
use biosim::genome::Genome;
use biosim::random::CreatureRng;
use biosim::renderer::{Color, RendererBuilder, RendererError};
use biosim::simulation::Simulation;
use biosim::vector2d::Vector2D;
use rand::SeedableRng;

fn creature_at(x: usize, y: usize, bytes: &[u8]) -> Creature {
    Creature::new(
        Vector2D::new(x, y),
        Genome::from_byte_slice(bytes),
        CreatureRng::from_seed([0; 32]),
    )
    .unwrap()
}

#[test]
fn new_invalid_color() {
    let color = Color::new(256, 34, -1);

    assert_eq!(color, Color::new(0, 34, 0));
}

#[test]
fn color_channels_in_both_byte_orders() {
    let color = Color::new(1, 2, 3);
    assert_eq!(color.byte_array_big_endian(), [1, 2, 3]);
    assert_eq!(color.byte_array_little_endian(), [3, 2, 1]);
}

#[test]
fn color_from_a_word_drops_the_top_byte() {
    assert_eq!(Color::from_xrgb_u32(0xff12_34_56), Color::new(0x12, 0x34, 0x56));
    assert_eq!(Color::from_xrgb_u32(0), Color::default());
}

#[test]
fn largest_channel_is_kept() {
    assert_eq!(Color::new(255u32, 0u32, 300u32).byte_array_big_endian(), [255, 0, 0]);
}

#[test]
fn field_without_cells_is_refused() {
    let built = RendererBuilder::new().build();
    assert_eq!(built.err(), Some(RendererError::FieldTooSmall(0, 0)));

    let built = RendererBuilder::new().with_field_dimensions(5, 0).build();
    assert_eq!(built.err(), Some(RendererError::FieldTooSmall(5, 0)));

    let built = RendererBuilder::new().with_field_dimensions(0, 7).build();
    assert_eq!(built.err(), Some(RendererError::FieldTooSmall(0, 7)));
}

#[test]
fn buffer_has_a_margin_of_one_pixel() {
    let renderer = RendererBuilder::new().with_field_dimensions(50, 60).build().unwrap();
    assert_eq!(renderer.buffer_dimensions(), (52, 62));
}

#[test]
fn renderer_is_initialized_once() {
    let mut renderer = RendererBuilder::new().with_field_dimensions(3, 4).build().unwrap();
    assert_eq!(renderer.init(), Ok(()));
    assert_eq!(renderer.init(), Err(RendererError::RendererAlreadyInitialized));
}

#[test]
fn buffer_wider_than_high_cannot_be_initialized() {
    let mut renderer = RendererBuilder::new().with_field_dimensions(4, 3).build().unwrap();
    assert_eq!(renderer.init(), Err(RendererError::OutOfBufferRange(0, 5)));
    // nothing was kept of the failed attempt
    assert_eq!(renderer.init(), Err(RendererError::OutOfBufferRange(0, 5)));
}

#[test]
fn empty_field_is_drawn_in_the_field_color() {
    let orange = Color::new(0xff, 0xdd, 0x8c);
    let gray = Color::new(0xaa, 0xaa, 0xaa);
    let mut renderer = RendererBuilder::new()
        .with_field_color(orange)
        .with_border_color(gray)
        .with_field_dimensions(3, 4)
        .build()
        .unwrap();
    renderer.init().unwrap();

    let sim = Simulation::new(3, 4, 0, [0; 32], 4);
    let picture = renderer.render(&sim).unwrap();
    assert_eq!(picture, vec![orange; 30]);
}

#[test]
fn creatures_are_stamped_in_their_color() {
    let orange = Color::new(0xff, 0xdd, 0x8c);
    let mut renderer = RendererBuilder::new()
        .with_field_color(orange)
        .with_field_dimensions(3, 4)
        .build()
        .unwrap();
    renderer.init().unwrap();

    let mut sim = Simulation::new(3, 4, 0, [0; 32], 2);
    let first = creature_at(1, 2, &[100, 34, 90, 210]);
    let second = creature_at(0, 0, &[1, 2, 3, 4]);
    assert!(sim.spawn(first).is_ok());
    assert!(sim.spawn(second).is_ok());

    let picture = renderer.render(&sim).unwrap();
    let mut expected = vec![orange; 30];
    expected[1 + 2 * 5] = Color::new(90, 34, 100);
    expected[0] = Color::new(3, 2, 1);
    assert_eq!(picture, expected);
}

#[test]
fn creature_outside_the_buffer_is_reported() {
    let renderer = RendererBuilder::new().with_field_dimensions(3, 4).build().unwrap();
    // the renderer was not initialized: its buffer has no pixel
    let mut sim = Simulation::new(3, 4, 0, [0; 32], 2);
    assert!(sim.spawn(creature_at(2, 3, &[1, 2, 3, 4])).is_ok());
    assert_eq!(renderer.render(&sim).err(), Some(RendererError::OutOfBufferRange(2, 3)));
}

#[test]
fn world_without_creatures_renders_even_before_init() {
    let renderer = RendererBuilder::new().with_field_dimensions(3, 4).build().unwrap();
    let sim = Simulation::new(3, 4, 0, [0; 32], 2);
    assert_eq!(renderer.render(&sim), Ok(vec![]));
}
