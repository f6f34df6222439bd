use prism::timer::{TimerClient, TimerParams};
use prism::ui::components::{
    Anchors, ComputedLayout, Interaction, Margin, Pivot, Style, Text, TextAlign,
};
use prism::ui::input::{ui_input_system, Bounds, UiInputState, UiTarget};
use prism::ui::layout::{ui_layout_system, Container, LayoutEntry, LayoutStep};
use prism::ui::panel_base::PanelBase;
use prism::ui::particles::{
    rand, retain, spawn_count, spawn_draws, survives, Particle2D, ParticleField, SpawnKind,
    RAIN_SEED,
};
use prism::ui::render::{ui_render_system, StyledElement, TextElement};

#[test]
fn panel_clears_its_timers() {
    let mut client: TimerClient<u8> = TimerClient::new();
    let mut panel: PanelBase<u8> = PanelBase::new();
    assert!(panel.visible);
    assert!(panel.children.is_empty());
    let make = || TimerParams {
        delay: 5,
        interval: None,
        exec_immediately: false,
        group_id: None,
        callback: 1u8,
    };
    let a = panel.create_timer(&mut client, make(), 0);
    let b = panel.create_timer(&mut client, make(), 0);
    panel.pause_timer(&mut client, a);
    assert!(!client.is_running(a));
    panel.resume_timer(&mut client, a, 1);
    assert!(client.is_running(a));
    panel.destroy_timer(&mut client, b);
    assert!(!client.is_running(b));
    panel.clear_timers(&mut client);
    assert!(!client.is_running(a));
}

#[test]
fn defaults_of_components() {
    assert_eq!(TextAlign::default(), TextAlign::Center);
    assert_eq!(
        Interaction::default(),
        Interaction { hovered: false, pressed: false, clicked: false }
    );
    assert_eq!(SpawnKind::default(), SpawnKind::Rain);
    let layout = ComputedLayout { rect: [1, 2, 3, 4] };
    assert_eq!((layout.left(), layout.top(), layout.width(), layout.height()), (1, 2, 3, 4));
}

fn at(x: f32, y: f32) -> [u32; 2] {
    [x.to_bits(), y.to_bits()]
}

fn bounds(left: f32, top: f32, right: f32, bottom: f32) -> Option<Bounds> {
    Some(Bounds {
        left: left.to_bits(),
        top: top.to_bits(),
        right: right.to_bits(),
        bottom: bottom.to_bits(),
    })
}

#[test]
fn pointer_touches_what_it_is_over() {
    let stale = Interaction { hovered: true, pressed: true, clicked: true };
    let mut list = vec![stale; 4];
    let targets = vec![
        UiTarget { is_node: true, bounds: bounds(10.0, 20.0, 30.0, 40.0) },
        UiTarget { is_node: true, bounds: bounds(-5.0, 20.0, 9.5, 40.0) },
        UiTarget { is_node: true, bounds: None },
        UiTarget { is_node: false, bounds: bounds(10.0, 20.0, 30.0, 40.0) },
    ];
    ui_input_system(
        &mut list,
        &targets,
        Some(UiInputState { cursor_pos: at(10.0, 40.0), left_clicked: true, left_held: false }),
    );
    assert_eq!(list[0], Interaction { hovered: true, pressed: false, clicked: true });
    assert_eq!(list[1], Interaction::default());
    assert_eq!(list[2], Interaction::default());
    assert_eq!(list[3], Interaction::default());
    ui_input_system(
        &mut list,
        &targets,
        Some(UiInputState { cursor_pos: at(10.0, 40.0), left_clicked: false, left_held: true }),
    );
    assert_eq!(list[0], Interaction { hovered: true, pressed: true, clicked: false });
}

#[test]
fn without_a_pointer_nothing_changes() {
    let mut list = vec![Interaction { hovered: true, pressed: false, clicked: true }];
    ui_input_system(&mut list, &vec![UiTarget { is_node: true, bounds: None }], None);
    assert_eq!(list[0], Interaction { hovered: true, pressed: false, clicked: true });
}

#[test]
fn elements_are_laid_out_in_order() {
    let queue = vec![
        LayoutEntry { entity: 1, parent: None },
        LayoutEntry { entity: 2, parent: Some(1) },
        LayoutEntry { entity: 3, parent: Some(9) },
        LayoutEntry { entity: 4, parent: Some(2) },
    ];
    let steps = ui_layout_system(&queue, &vec![1, 2, 3, 4]);
    assert_eq!(
        steps,
        vec![
            LayoutStep { entity: 1, container: Container::Screen },
            LayoutStep { entity: 2, container: Container::Element(1) },
            LayoutStep { entity: 4, container: Container::Element(2) },
        ]
    );
}

fn styled(alpha: f32, visible: bool) -> StyledElement {
    StyledElement {
        layout: ComputedLayout { rect: [7, 7, 7, 7] },
        style: Style {
            background: [0, 0, 0, alpha.to_bits()],
            border_radius: 3,
            visible,
            ..Style::default()
        },
    }
}

#[test]
fn only_visible_backgrounds_are_drawn() {
    let elements = vec![
        styled(1.0, true),
        styled(1.0, false),
        styled(0.0, true),
        styled(-0.0, true),
        styled(-1.0, true),
        styled(0.001, true),
        styled(f32::NAN, true),
    ];
    let list = ui_render_system(&elements, &Vec::new());
    let alphas: Vec<u32> = list.quads.iter().map(|q| q.color[3]).collect();
    assert_eq!(alphas, vec![1.0f32.to_bits(), 0.001f32.to_bits(), f32::NAN.to_bits()]);
    assert!(list.quads.iter().all(|q| q.layer == 0));
}

#[test]
fn empty_texts_are_not_drawn() {
    let text = |s: &str| TextElement {
        layout: ComputedLayout { rect: [0, 1, 2, 3] },
        text: Text {
            content: s.to_string(),
            font_size: 16,
            color: [1; 4],
            alignment: TextAlign::Left,
        },
    };
    let list = ui_render_system(&Vec::new(), &vec![text("a"), text(""), text("b")]);
    assert_eq!(list.texts.len(), 2);
    assert_eq!(list.texts[0].content, "a");
    assert_eq!(list.texts[1].content, "b");
    assert_eq!(list.texts[1].alignment, TextAlign::Left);
    assert!(list.texts.iter().all(|t| t.layer == 1));
}

#[test]
fn random_numbers_follow_the_generator() {
    let mut state = 1u64;
    let r = rand(&mut state);
    assert_eq!(state, 0x40822041);
    assert_eq!(r, 0);
    let mut seed = RAIN_SEED;
    let draws = spawn_draws(SpawnKind::Rain, &mut seed);
    assert_eq!(draws.len(), 7);
    let mut check = RAIN_SEED;
    for d in &draws {
        check ^= check << 13;
        check ^= check >> 7;
        check ^= check << 17;
        assert_eq!(*d as u64, check >> 40);
    }
    assert_eq!(seed, check);
    assert_eq!(spawn_draws(SpawnKind::Snow, &mut seed).len(), 5);
    assert_eq!(spawn_draws(SpawnKind::Spark, &mut seed).len(), 7);
}

#[test]
fn births_stop_at_the_limit() {
    assert_eq!(spawn_count(5, 0, 10), 5);
    assert_eq!(spawn_count(5, 8, 10), 2);
    assert_eq!(spawn_count(5, 11, 10), 0);
    assert_eq!(spawn_count(-3, 0, 10), 0);
    assert_eq!(retain(&vec![1, 2, 3], &vec![true, false, true]), vec![1, 3]);
}

#[test]
fn particles_leave_at_the_sides_and_the_bottom() {
    let b = |x: f32| x.to_bits();
    let field = ParticleField { left: b(-60.0), right: b(1980.0), bottom: b(1140.0) };
    let p = Particle2D {
        x: b(0.0),
        y: b(-500.0),
        vx: 0,
        vy: 0,
        age: b(1.0),
        life: b(6.0),
        len: 0,
        width: 0,
        alpha: 0,
    };
    assert!(survives(p, field));
    assert!(!survives(Particle2D { age: b(6.0), ..p }, field));
    assert!(!survives(Particle2D { x: b(-60.0), ..p }, field));
    assert!(!survives(Particle2D { x: b(2000.0), ..p }, field));
    assert!(!survives(Particle2D { y: b(1140.0), ..p }, field));
    assert!(!survives(Particle2D { x: b(f32::NAN), ..p }, field));
}

#[test]
fn styles_have_defaults() {
    let b = |x: f32| x.to_bits();
    let full = Style::fullscreen();
    assert_eq!(full, Style::default());
    assert_eq!(full.anchors, Anchors { min_x: 0, min_y: 0, max_x: b(1.0), max_y: b(1.0) });
    assert_eq!(full.anchors, Anchors::default());
    assert_eq!(full.pivot, Pivot { x: b(0.5), y: b(0.5) });
    assert_eq!(full.pivot, Pivot::default());
    assert_eq!(full.margin, Margin::default());
    assert!(full.visible && full.width.is_none() && full.height.is_none());
    let fixed = Style::fixed(b(30.0), b(20.0));
    assert_eq!((fixed.width, fixed.height), (Some(b(30.0)), Some(b(20.0))));
    assert_eq!(fixed.anchors, Anchors::center());
    assert_eq!(Anchors::bottom_center().max_y, b(1.0));
    assert_eq!(Anchors::top_left().max_x, 0);
    assert_eq!(Pivot::top_left().x, 0);
    let text = Text::default();
    assert_eq!(text.content, "");
    assert_eq!(f32::from_bits(text.font_size), 16.0);
    assert_eq!(text.color, [b(1.0); 4]);
}

#[test]
fn parents_are_laid_out_before_their_children() {
    let queue = vec![
        LayoutEntry { entity: 4, parent: Some(2) },
        LayoutEntry { entity: 2, parent: Some(1) },
        LayoutEntry { entity: 1, parent: None },
        LayoutEntry { entity: 5, parent: Some(8) },
    ];
    let order: Vec<u32> =
        ui_layout_system(&queue, &vec![1, 2, 4, 5, 8]).iter().map(|s| s.entity).collect();
    assert_eq!(order, vec![1, 5, 2, 4]);
}

#[test]
fn elements_in_a_ring_come_last() {
    let queue = vec![
        LayoutEntry { entity: 1, parent: Some(2) },
        LayoutEntry { entity: 2, parent: Some(1) },
        LayoutEntry { entity: 3, parent: None },
    ];
    let order: Vec<u32> =
        ui_layout_system(&queue, &vec![1, 2, 3]).iter().map(|s| s.entity).collect();
    assert_eq!(order, vec![3, 1, 2]);
}

#[test]
fn panel_forgets_a_destroyed_timer() {
    let mut client: TimerClient<u8> = TimerClient::new();
    let mut panel: PanelBase<u8> = PanelBase::new();
    let make = || TimerParams {
        delay: 5,
        interval: None,
        exec_immediately: false,
        group_id: None,
        callback: 1u8,
    };
    let kept = panel.create_timer(&mut client, make(), 0);
    let id = panel.create_timer(&mut client, make(), 0);
    panel.destroy_timer(&mut client, id);
    assert!(client.is_running(kept));
    assert_eq!(client.create_timer(make(), 0), id);
    panel.clear_timers(&mut client);
    assert!(!client.is_running(kept));
    assert!(client.is_running(id));
    assert!(panel.visible);
}
