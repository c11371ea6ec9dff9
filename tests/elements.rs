use rui_lopez::elements::{
    Button, Component, Container, Dimension, MainMenu, Menu, MenuItem, Submenu, TextField, Window,
};
use rui_lopez::geometry::{Body, BodyKind, GlyphQuad, Rgba, TexturedPolygon, Vertex};

fn sample_menu() -> MainMenu {
    MainMenu {
        menu: Menu {
            title: "File".to_string(),
            children: vec![
                Submenu::MenuItem(MenuItem { title: "Open".to_string() }),
                Submenu::MenuItem(MenuItem { title: "Exit".to_string() }),
            ],
        },
    }
}

fn indices_valid(b: &Body) -> bool {
    b.polygons.iter().all(|p| p.indices.iter().all(|i| (*i as usize) < p.vertices.len()))
}

#[test]
fn container_elaborates_children_in_order() {
    let container = Container {
        children: vec![
            Component::TextField(TextField::default()),
            Component::Button(Button::default()),
        ],
        ..Default::default()
    };
    let bodies = container.elaborate(&Component::Icon);
    assert_eq!(bodies.len(), 2);
    assert_eq!(bodies[0].kind, BodyKind::TextField);
    assert_eq!(bodies[1].kind, BodyKind::Button);
    assert!(bodies.iter().all(indices_valid));
}

#[test]
fn nested_containers_elaborate_in_tree_order() {
    let inner = Container {
        children: vec![Component::Icon, Component::Button(Button::default())],
        ..Default::default()
    };
    let outer = Container {
        children: vec![
            Component::TextField(TextField::default()),
            Component::Container(inner),
            Component::Container(Container::default()),
            Component::MainMenu(sample_menu()),
        ],
        ..Default::default()
    };
    let kinds: Vec<BodyKind> = outer.elaborate(&Component::Icon).iter().map(|b| b.kind).collect();
    assert_eq!(
        kinds,
        vec![BodyKind::TextField, BodyKind::Icon, BodyKind::Button, BodyKind::MainMenu]
    );
}

#[test]
fn empty_container_elaborates_to_nothing() {
    assert!(Container::default().elaborate(&Component::Icon).is_empty());
}

#[test]
fn every_component_builds_valid_geometry() {
    let parts = vec![
        Component::Icon,
        Component::MainMenu(sample_menu()),
        Component::Container(Container::default()),
        Component::Button(Button::default()),
        Component::TextField(TextField::default()),
    ];
    for c in parts.iter() {
        let b = c.build(&Component::Icon);
        assert!(indices_valid(&b));
        assert_eq!(b.kind, c.kind());
    }
}

#[test]
fn icon_is_one_triangle() {
    let b = Component::Icon.build(&Component::Icon);
    assert_eq!(b.polygon_count(), 1);
    let p = &b.polygons[0];
    let pos: Vec<(i32, i32)> = p.vertices.iter().map(|v| (v.x, v.y)).collect();
    assert_eq!(pos, vec![(400, 150), (200, 450), (600, 450)]);
    assert_eq!(p.vertices[0].color, Rgba { r: 255, g: 0, b: 0, a: 255 });
    assert!(p.indices.is_empty());
    assert_eq!(p.texture, None);
}

#[test]
fn window_frame_is_icon_then_menu() {
    let window = Window { title: "Hello World".to_string(), menu: Some(sample_menu()), ..Default::default() };
    let frame = window.build();
    assert_eq!(frame.len(), 2);
    assert_eq!(frame[0].kind, BodyKind::Icon);
    assert_eq!(frame[1].kind, BodyKind::MainMenu);
    assert!(frame[1].polygons.is_empty());
    let bare = Window::default();
    assert_eq!(bare.build().len(), 1);
}

#[test]
fn defaults_are_unset_dimensions() {
    let w = Window::default();
    assert_eq!(w.title, "RUI Lopez");
    assert_eq!(w.height, Dimension::Relative(-1));
    assert!(w.menu.is_none() && w.container.is_none() && w.status_bar.is_none());
    let c = Container::default();
    assert_eq!(c.width, Dimension::Relative(-1));
    assert!(c.children.is_empty());
    assert_eq!(Button::default().title, "Button");
    let t = TextField::default();
    assert_eq!(t.text, "TextField");
    assert!(!t.editable);
}

#[test]
fn dimensions_come_from_the_container() {
    let c = Container { width: Dimension::Pixels(80), height: Dimension::Percentage(50), children: vec![] };
    let comp = Component::Container(c);
    assert_eq!(comp.get_width(), Dimension::Pixels(80));
    assert_eq!(comp.get_height(), Dimension::Percentage(50));
    assert_eq!(Component::Icon.get_width(), Dimension::Relative(-1));
}

#[test]
fn polygon_with_bad_index_is_refused() {
    let v = Vertex { x: 0, y: 0, color: Rgba { r: 0, g: 0, b: 0, a: 255 }, u: 0, v: 0 };
    assert!(TexturedPolygon::new(vec![v, v, v], vec![0, 1, 3], None).is_none());
    assert!(TexturedPolygon::new(vec![v, v], vec![], None).is_none());
    assert!(TexturedPolygon::new(vec![v, v, v], vec![0, 1, 2], Some(1)).is_some());
    assert!(TexturedPolygon::new(vec![], vec![], None).is_some());
}

#[test]
fn body_totals_count_all_polygons() {
    let mut b = Body::new(BodyKind::Text);
    let q = GlyphQuad { min_x: 0, min_y: 0, max_x: 1, max_y: 1, tex_min_u: 0, tex_min_v: 0, tex_max_u: 1, tex_max_v: 1 };
    b.push_polygon(TexturedPolygon::from_glyph(q));
    b.push_polygon(TexturedPolygon::from_glyph(q));
    b.push_polygon(TexturedPolygon::empty(None));
    assert_eq!(b.vertex_count(), Some(8));
    assert_eq!(b.index_count(), Some(12));
    let copy = b.polygons[0].duplicate();
    assert_eq!(copy.vertices, b.polygons[0].vertices);
    assert_eq!(copy.indices, b.polygons[0].indices);
}
