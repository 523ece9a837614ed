use bento::{
    button, dispatch, draw, layout, measure, rect, row, text, Align, Color, DrawCommand, Edges,
    Element, Intent, IntentKind, LayoutKind, Padding, Size,
};
use std::collections::HashSet;

fn sidebar() -> Element {
    bento::element::column(vec![
        text("MAIN", Color::hex("#80808f")).measured(40, 20),
        text("Dashboard", Color::hex("#ebebf2")).measured(90, 20),
        button("Logout").measured(60, 20).on_click(1),
    ])
    .width(Size::Fixed(180))
    .height(Size::Fill)
    .padding(Padding::all(24))
    .gap(14)
    .background(Color::rgb(31, 31, 38))
}

fn dashboard() -> Element {
    row(vec![
        sidebar(),
        bento::element::column(vec![
            row(vec![
                rect(Color::red()).width(Size::Fill).height(Size::Fixed(80)),
                rect(Color::green()).width(Size::Fill).height(Size::Fixed(80)),
                rect(Color::blue()).width(Size::Fill).height(Size::Fixed(80)),
            ])
            .width(Size::Fill)
            .gap(12),
            rect(Color::white()).width(Size::Percent(30)).height(Size::Fill),
        ])
        .width(Size::Fill)
        .height(Size::Fill)
        .padding(Edges::all(24))
        .gap(12),
    ])
    .width(Size::Fill)
    .height(Size::Fill)
}

fn nodes_of(n: &bento::LayoutNode) -> &Vec<bento::LayoutNode> {
    match &n.kind {
        LayoutKind::Children(v) => v,
        _ => panic!("not a container"),
    }
}

#[test]
fn a_dashboard_frame() {
    let tree = dashboard();
    assert_eq!(measure(&tree), (0, 0));
    assert_eq!(measure(&sidebar()), (180, 0));
    assert_eq!(measure(&sidebar().height(Size::Auto)), (180, 48 + 20 + 14 + 20 + 14 + 32));
    let nodes = layout(&tree, 0, 0, 1000, 600);
    assert_eq!((nodes.x, nodes.y, nodes.w, nodes.h), (0, 0, 1000, 600));

    let side = &nodes_of(&nodes)[0];
    assert_eq!((side.x, side.y, side.w, side.h), (0, 0, 180, 600));
    let logout = &nodes_of(side)[2];
    assert_eq!((logout.x, logout.y, logout.w, logout.h), (24, 24 + 20 + 14 + 20 + 14, 84, 32));

    let main = &nodes_of(&nodes)[1];
    assert_eq!((main.x, main.y, main.w, main.h), (180, 0, 820, 600));
    let cards = &nodes_of(main)[0];
    assert_eq!((cards.x, cards.y, cards.w, cards.h), (204, 24, 772, 80));
    let c = nodes_of(cards);
    assert_eq!((c[0].x, c[0].w), (204, 249));
    assert_eq!((c[1].x, c[1].w), (204 + 249 + 12, 249));
    assert_eq!((c[2].x, c[2].w), (204 + 2 * (249 + 12), 249));
    let panel = &nodes_of(main)[1];
    assert_eq!((panel.x, panel.y, panel.w, panel.h), (204, 24 + 80 + 12, 231, 460));

    let (intents, hovered) = dispatch(&nodes, 30, 100, true, &HashSet::new());
    assert_eq!(intents, vec![Intent { index: 4, kind: IntentKind::Click, action: 1 }]);
    assert!(hovered.contains(&4) && hovered.len() == 1);

    let cmds = draw(&nodes, false);
    assert_eq!(cmds.len(), 1 + 2 + 2 + 3 + 1);
    assert!(matches!(cmds[0], DrawCommand::Rect { x: 0, y: 0, w: 180, h: 600, .. }));
    assert!(matches!(cmds[1], DrawCommand::Text { x: 24, y: 24, .. }));
    let _ = Align::Start;
}
