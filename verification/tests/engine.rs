use lili_modeler::engine::animation::{DopeSheetFilter, DriverType, Easing, Extrapolation, HandleType, Interpolation};
use lili_modeler::engine::modifiers::ModifierStack;
use lili_modeler::engine::overlay::{CollectionColor, LayerState};
use lili_modeler::engine::nodes::{NodeCanvas, NodeTree, NodeTreeType, NodeType, ShaderNodePresets, SocketDirection};
use lili_modeler::engine::undo::UndoSystem;
use lili_modeler::engine::{PivotPoint, SelectMode, TransformOrientation};
use lili_modeler::mesh::bmesh::{HVertId, SlotPool};

#[test]
fn test_undo_redo() {
    let mut undo = UndoSystem::new(10);
    // The snapshot of an empty mesh.
    let snapshot: Vec<u8> = vec![0; 24];
    undo.push("Create".into(), "obj1".into(), snapshot, 0);
    assert!(undo.can_undo());
    assert!(!undo.can_redo());

    let result = undo.undo();
    assert!(result.is_some());
    assert!(!undo.can_undo());
    assert!(undo.can_redo());
}

#[test]
fn undo_returns_the_last_pushed_snapshot() {
    let mut undo = UndoSystem::new(4);
    undo.push("A".into(), "o1".into(), vec![1, 2], 10);
    undo.push("B".into(), "o2".into(), vec![3], 11);
    let (id, snap) = undo.undo().unwrap();
    assert_eq!(id, "o2");
    assert_eq!(snap, vec![3]);
    assert_eq!(undo.history_count(), 1);
}

#[test]
fn redo_returns_the_last_undone_snapshot() {
    let mut undo = UndoSystem::new(4);
    undo.push("A".into(), "o1".into(), vec![7, 7], 1);
    let undone = undo.undo().unwrap();
    let redone = undo.redo().unwrap();
    assert_eq!(undone, redone);
    assert_eq!(redone, ("o1".to_string(), vec![7, 7]));
    assert!(!undo.can_redo());
    assert!(undo.redo().is_none());
}

#[test]
fn undo_on_empty_history_is_none() {
    let mut undo = UndoSystem::new(3);
    assert!(undo.undo().is_none());
    assert!(!undo.can_redo());
}

#[test]
fn push_clears_redo_and_history_is_bounded() {
    let mut undo = UndoSystem::new(2);
    undo.push("A".into(), "o".into(), vec![], 0);
    undo.undo();
    assert!(undo.can_redo());
    undo.push("B".into(), "o".into(), vec![], 0);
    assert!(!undo.can_redo());
    undo.push("C".into(), "o".into(), vec![], 0);
    undo.push("D".into(), "o".into(), vec![], 0);
    assert_eq!(undo.history_count(), 2);
    assert_eq!(undo.get_history_names(), vec!["C".to_string(), "D".to_string()]);
    undo.clear();
    assert_eq!(undo.history_count(), 0);
    assert!(!undo.can_undo());
}

#[test]
fn zero_capacity_keeps_nothing() {
    let mut undo = UndoSystem::new(0);
    undo.push("A".into(), "o".into(), vec![1], 0);
    assert!(!undo.can_undo());
}

#[test]
fn slot_pool_reuses_the_last_freed_id() {
    let mut pool: SlotPool<HVertId> = SlotPool::new();
    assert_eq!(pool.allocate(), HVertId(0));
    assert_eq!(pool.allocate(), HVertId(1));
    assert_eq!(pool.allocate(), HVertId(2));
    pool.free(HVertId(0));
    pool.free(HVertId(2));
    assert_eq!(pool.allocate(), HVertId(2));
    assert_eq!(pool.allocate(), HVertId(0));
    assert_eq!(pool.allocate(), HVertId(3));
}

struct Canvas;

impl NodeCanvas for Canvas {
    type Point = (f32, f32);
    type Look = (f32, f32, [f32; 3]);
    type Socket = String;

    fn origin() -> (f32, f32) {
        (0.0, 0.0)
    }

    fn node_look() -> (f32, f32, [f32; 3]) {
        (150.0, 100.0, [0.5, 0.5, 0.5])
    }

    fn point(x: i32, y: i32) -> (f32, f32) {
        (x as f32, y as f32)
    }
}

#[test]
fn add_node_counts_ids_and_names_by_type() {
    let mut tree: NodeTree<Canvas> = NodeTree::new("Mat", NodeTreeType::Shader);
    assert_eq!(tree.name, "Mat");
    assert_eq!(tree.nodewidget_width, 250);
    let a = tree.add_node(NodeType::ShaderOutput, (1.0, 2.0));
    let b = tree.add_node(NodeType::MathArctan2, (0.0, 0.0));
    assert_eq!(a, "node_0");
    assert_eq!(b, "node_1");
    assert_eq!(tree.nodes[0].name, "ShaderOutput");
    assert_eq!(tree.nodes[1].name, "MathArctan2");
    assert_eq!(tree.nodes[0].location, (1.0, 2.0));
    assert!(tree.nodes[0].show_options);
    for k in 2..12 {
        let id = tree.add_node(NodeType::RGB, (0.0, 0.0));
        assert_eq!(id, format!("node_{}", k));
    }
    assert_eq!(tree.nodes[11].id, "node_11");
    assert_eq!(tree.nodes[11].name, "RGB");
}

#[test]
fn remove_node_drops_its_links() {
    let mut tree: NodeTree<Canvas> = NodeTree::new("T", NodeTreeType::Shader);
    let a = tree.add_node(NodeType::ShaderOutput, (0.0, 0.0));
    let b = tree.add_node(NodeType::PrincipledBSDF, (0.0, 0.0));
    let c = tree.add_node(NodeType::Emission, (0.0, 0.0));
    tree.add_link(&b, "BSDF", &a, "Surface");
    tree.add_link(&c, "Emission", &b, "Emission");
    tree.add_link(&c, "Emission", &a, "Volume");
    assert!(tree.is_linked(&a, "Surface", SocketDirection::Input));
    assert!(tree.is_linked(&b, "BSDF", SocketDirection::Output));
    assert!(!tree.is_linked(&a, "Surface", SocketDirection::Output));
    assert_eq!(tree.links_from(&c).len(), 2);
    assert_eq!(tree.links_to(&a).len(), 2);
    tree.remove_node(&b);
    assert_eq!(tree.nodes.len(), 2);
    assert!(tree.get_node(&b).is_none());
    assert_eq!(tree.get_node(&c).unwrap().node_type, NodeType::Emission);
    assert_eq!(tree.links.len(), 1);
    assert_eq!(tree.links[0].from_node, c);
    assert_eq!(tree.links[0].to_socket, "Volume");
    tree.remove_link(5);
    assert_eq!(tree.links.len(), 1);
    tree.remove_link(0);
    assert!(tree.links.is_empty());
}

#[test]
fn presets_build_their_graphs() {
    let t: NodeTree<Canvas> = ShaderNodePresets::principled_base();
    assert_eq!(t.name, "PrincipledBase");
    assert_eq!(t.nodes.len(), 2);
    assert_eq!(t.nodes[1].location, (0.0, 0.0));
    assert_eq!(t.nodes[0].location, (400.0, 0.0));
    assert_eq!(t.links.len(), 1);
    assert_eq!(
        (t.links[0].from_node.as_str(), t.links[0].from_socket.as_str(), t.links[0].to_node.as_str(), t.links[0].to_socket.as_str()),
        ("node_1", "BSDF", "node_0", "Surface")
    );
    let g: NodeTree<Canvas> = ShaderNodePresets::glass();
    assert_eq!(g.nodes[2].node_type, NodeType::TextureCoordinate);
    assert_eq!(g.links[1].to_socket, "Normal");
    let e: NodeTree<Canvas> = ShaderNodePresets::emissive();
    assert_eq!(e.links[0].from_socket, "Emission");
    let n: NodeTree<Canvas> = ShaderNodePresets::procedural_noise();
    assert_eq!(n.nodes.len(), 5);
    assert_eq!(n.links.len(), 4);
    assert_eq!(n.links[3].from_node, "node_4");
    assert_eq!(n.links[3].to_socket, "Base Color");
    assert_eq!(n.nodes[3].location, (-600.0, 0.0));
}

#[test]
fn modifier_stack_moves() {
    let mut s: ModifierStack<&str> = ModifierStack::new();
    assert!(s.enabled);
    s.add("array");
    s.add("mirror");
    s.add("bevel");
    s.move_up(2);
    assert_eq!(s.modifiers, vec!["array", "bevel", "mirror"]);
    s.move_down(1);
    assert_eq!(s.modifiers, vec!["array", "mirror", "bevel"]);
    s.move_up(0);
    s.move_down(2);
    s.move_down(7);
    assert_eq!(s.modifiers, vec!["array", "mirror", "bevel"]);
    s.remove(1);
    s.remove(9);
    assert_eq!(s.modifiers, vec!["array", "bevel"]);
}

#[test]
fn defaults() {
    let f = DopeSheetFilter::default();
    assert!(!f.show_selected_only && !f.show_hidden && f.show_summary && f.show_particle);
    assert_eq!(Interpolation::default(), Interpolation::Bezier);
    assert_eq!(Extrapolation::default(), Extrapolation::Nothing);
    assert_eq!(HandleType::default(), HandleType::Auto);
    assert_eq!(Easing::default(), Easing::Default);
    assert_eq!(DriverType::default(), DriverType::ScriptedExpression);
    assert_eq!(SelectMode::default(), SelectMode::Object);
    assert!(matches!(PivotPoint::default(), PivotPoint::Median));
    assert!(matches!(TransformOrientation::default(), TransformOrientation::Global));
}

#[test]
fn get_node_mut_changes_the_first_match() {
    let mut tree: NodeTree<Canvas> = NodeTree::new("T", NodeTreeType::Compositor);
    tree.add_node(NodeType::Viewer, (0.0, 0.0));
    let b = tree.add_node(NodeType::Blur, (0.0, 0.0));
    tree.get_node_mut(&b).unwrap().mute = true;
    assert!(tree.nodes[1].mute);
    assert!(!tree.nodes[0].mute);
    assert!(tree.get_node_mut("node_7").is_none());
}

struct Grey;

impl CollectionColor for Grey {
    fn default_color() -> Self {
        Grey
    }
}

#[test]
fn collections_hold_objects_and_visibility() {
    let mut layers: LayerState<Grey> = LayerState::new();
    assert_eq!(layers.layers.len(), 1);
    assert_eq!(layers.layers[0].name, "Scene Collection");
    let root = layers.layers[0].id;
    let c = layers.add_collection("Props");
    assert_ne!(c, root);
    layers.add_object_to_collection(c, 7);
    layers.add_object_to_collection(c, 9);
    layers.add_object_to_collection(c, 7);
    layers.add_object_to_collection(12345, 1);
    assert_eq!(layers.layers[1].objects, vec![7, 9, 7]);
    layers.remove_object_from_collection(c, 7);
    assert_eq!(layers.layers[1].objects, vec![9]);
    assert!(layers.is_visible(c));
    layers.toggle_visibility(c);
    assert!(!layers.is_visible(c));
    layers.toggle_visibility(c);
    assert!(layers.is_visible(c));
    assert!(!layers.is_visible(12345));
    layers.remove_collection(c);
    assert_eq!(layers.layers.len(), 1);
    assert_eq!(layers.layers[0].id, root);
}
