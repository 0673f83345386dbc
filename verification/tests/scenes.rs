use vect_crdt_rs::crdt::moves::new_node_root_id;
use vect_crdt_rs::prelude::{
    FracIndex, JSNullable, LWWNodeMapItem, NodeMapItem, PartialSVGCircle, PartialSVGGroup,
    PartialSVGPath, PartialSVGPathCommand, SVGCircle, SVGDocCrdt2, SVGGroup, SVGObject, SVGPath,
    SVGPathCommand, SVGPathCommandType, SVGRectangle, Scalar, Vec2,
};

fn ids(doc: &SVGDocCrdt2) -> Vec<String> {
    doc.tree().children.iter().map(|o| o.get_id().to_string()).collect()
}

#[test]
fn new_objects_take_their_defaults() {
    let c = SVGCircle::with_id("c".to_string());
    assert_eq!(c.radius, 10);
    assert_eq!(c.stroke_width, 2);
    assert_eq!(f32::from_bits(c.opacity.bits), 1.0);
    assert_eq!(c.fill.0, 255);
    assert_eq!(c.stroke.0, 0);
    let r = SVGRectangle::with_id("r".to_string());
    assert_eq!((r.height, r.width), (5, 10));
    let g = SVGGroup::with_id("g".to_string());
    assert!(g.fill.is_none() && g.children.is_empty());
    let p = SVGPath::with_id("p".to_string());
    assert!(p.points.is_empty());
    assert_eq!(SVGCircle::default().id.len(), 16);
}

#[test]
fn group_fields_can_be_set_and_cleared() {
    let mut doc = SVGDocCrdt2::new("r1".to_string());
    doc.add_group_with(None, PartialSVGGroup::empty(), "g".to_string(), 1);
    let mut edits = PartialSVGGroup::empty();
    edits.stroke_width = Some(JSNullable::Value { item: 7 });
    doc.edit_group_at("g".to_string(), edits, 2);
    assert_eq!(doc.get_group("g".to_string()).expect("group").stroke_width, Some(7));
    let mut edits = PartialSVGGroup::empty();
    edits.stroke_width = Some(JSNullable::Null);
    doc.edit_group_at("g".to_string(), edits, 3);
    assert_eq!(doc.get_group("g".to_string()).expect("group").stroke_width, None);
}

#[test]
fn slots_resolve_by_the_four_rules() {
    let mut doc = SVGDocCrdt2::new("r1".to_string());
    // no siblings: the default position
    let at = doc.get_fractional_index_insert_at(&None, &"x".to_string(), Some(3));
    assert_eq!(at.expect("root holds children").as_bytes(), &vec![128u8]);
    doc.add_circle_with(None, PartialSVGCircle::empty(), "a".to_string(), 1);
    doc.add_circle_with(None, PartialSVGCircle::empty(), "b".to_string(), 2);
    assert_eq!(ids(&doc), vec!["a", "b"]);
    // no slot, or a slot past the end: after the last
    let at = doc.get_fractional_index_insert_at(&None, &"x".to_string(), None);
    assert_eq!(at.expect("position").as_bytes(), &vec![130u8, 128]);
    let at = doc.get_fractional_index_insert_at(&None, &"x".to_string(), Some(2));
    assert_eq!(at.expect("position").as_bytes(), &vec![130u8, 128]);
    // slot zero: before the first
    let at = doc.get_fractional_index_insert_at(&None, &"x".to_string(), Some(0));
    assert_eq!(at.expect("position").as_bytes(), &vec![127u8, 128]);
    // else between the neighbours
    let at = doc.get_fractional_index_insert_at(&None, &"x".to_string(), Some(1));
    assert_eq!(at.expect("position").as_bytes(), &vec![129u8, 127, 128]);
    // the object that moves is not counted
    let at = doc.get_fractional_index_insert_at(&None, &"a".to_string(), Some(1));
    assert_eq!(at.expect("position").as_bytes(), &vec![130u8, 128]);
    // what is no group holds no children
    let at = doc.get_fractional_index_insert_at(&Some("a".to_string()), &"x".to_string(), None);
    assert!(at.is_none());
    assert!(doc.get_children(&Some("a".to_string())).is_none());
    let children = doc.get_children(&None).expect("root holds children");
    assert_eq!(children.len(), 2);
    assert_eq!(children[0].1, "a");
}

#[test]
fn moving_to_the_slot_it_has_changes_nothing_shown() {
    let mut doc = SVGDocCrdt2::new("r1".to_string());
    doc.add_circle(None, PartialSVGCircle::empty());
    doc.add_circle(None, PartialSVGCircle::empty());
    doc.add_circle(None, PartialSVGCircle::empty());
    let before = doc.tree();
    let names = ids(&doc);
    doc.move_object(None, names[1].clone(), Some(1));
    assert_eq!(doc.tree(), before);
    doc.move_object(None, names[0].clone(), Some(0));
    assert_eq!(doc.tree(), before);
    doc.move_object(None, names[2].clone(), None);
    assert_eq!(doc.tree(), before);
    doc.move_object(None, names[1].clone(), Some(1));
    assert_eq!(doc.tree(), before);
}

#[test]
fn editing_a_removed_object_changes_nothing() {
    let mut doc = SVGDocCrdt2::new("r1".to_string());
    doc.add_circle_with(None, PartialSVGCircle::empty(), "c".to_string(), 1);
    doc.remove_object("c".to_string());
    let (before, _) = doc.save_aux();
    let mut edits = PartialSVGCircle::empty();
    edits.radius = Some(3);
    doc.edit_circle("c".to_string(), edits);
    assert!(doc.get_circle("c".to_string()).is_none());
    assert_eq!(doc.tree().children.len(), 0);
    let (after, _) = doc.save_aux();
    assert_eq!(after.stored(), before.stored());
    assert!(after.removed().get(&"c".to_string()) == before.removed().get(&"c".to_string()));
    // nor does an edit of the wrong kind, or of a name that is not there
    doc.add_circle_with(None, PartialSVGCircle::empty(), "d".to_string(), 2);
    let shown = doc.tree();
    doc.edit_group("d".to_string(), PartialSVGGroup::empty());
    doc.edit_circle("nobody".to_string(), edits);
    doc.move_object(None, "nobody".to_string(), None);
    assert_eq!(doc.tree(), shown);
}

#[test]
fn a_move_into_itself_is_dropped() {
    let mut doc = SVGDocCrdt2::new("r1".to_string());
    doc.add_group_with(None, PartialSVGGroup::empty(), "g".to_string(), 1);
    let before = doc.tree();
    doc.move_object(Some("g".to_string()), "g".to_string(), None);
    assert_eq!(doc.tree(), before);
    assert!(!doc.is_ancestor(&"g".to_string(), &"g".to_string()));
}

#[test]
fn nothing_is_added_under_what_is_no_group() {
    let mut doc = SVGDocCrdt2::new("r1".to_string());
    doc.add_circle_with(None, PartialSVGCircle::empty(), "c".to_string(), 1);
    doc.add_circle(Some("c".to_string()), PartialSVGCircle::empty());
    doc.add_circle(Some("nobody".to_string()), PartialSVGCircle::empty());
    doc.add_group(Some("c".to_string()), PartialSVGGroup::empty());
    doc.add_path(Some("c".to_string()), PartialSVGPath::empty());
    assert_eq!(ids(&doc), vec!["c"]);
    let (map, history) = doc.save_aux();
    assert_eq!(map.stored(), 1);
    assert_eq!(history.len(), 1);
}

#[test]
fn a_node_that_was_never_moved_is_not_shown() {
    let mut doc = SVGDocCrdt2::new("r1".to_string());
    let item = NodeMapItem {
        object: SVGObject::Circle(SVGCircle::with_id("c".to_string())),
        parent_id: Some(new_node_root_id()),
        index: FracIndex::default(),
    };
    doc.write("c".to_string(), LWWNodeMapItem::new(item, 1));
    assert!(doc.get_circle("c".to_string()).is_some());
    assert_eq!(doc.tree().children.len(), 0);
}

#[test]
fn equal_positions_are_ordered_by_name() {
    let mut doc1 = SVGDocCrdt2::new("r1".to_string());
    let mut doc2 = SVGDocCrdt2::new("r2".to_string());
    doc1.add_circle_with(None, PartialSVGCircle::empty(), "zz".to_string(), 1);
    doc2.add_circle_with(None, PartialSVGCircle::empty(), "aa".to_string(), 2);
    let (m1, l1) = doc1.broadcast_aux();
    let (m2, l2) = doc2.broadcast_aux();
    doc1.merge_aux(m2, l2);
    doc2.merge_aux(m1, l1);
    assert_eq!(ids(&doc1), vec!["aa", "zz"]);
    assert_eq!(ids(&doc2), vec!["aa", "zz"]);
}

#[test]
fn broadcast_hands_the_moves_over_once() {
    let mut doc = SVGDocCrdt2::new("r1".to_string());
    doc.add_circle(None, PartialSVGCircle::empty());
    doc.add_circle(None, PartialSVGCircle::empty());
    let (_, moves) = doc.broadcast_aux();
    assert_eq!(moves.len(), 2);
    let (_, moves) = doc.broadcast_aux();
    assert_eq!(moves.len(), 0);
    let (_, history) = doc.save_aux();
    assert_eq!(history.len(), 2);
    assert!(history[0].timestamp < history[1].timestamp);
}

#[test]
fn a_move_that_arrives_twice_is_worked_in_once() {
    let mut doc1 = SVGDocCrdt2::new("r1".to_string());
    doc1.add_circle_with(None, PartialSVGCircle::empty(), "a".to_string(), 10);
    doc1.add_circle_with(None, PartialSVGCircle::empty(), "b".to_string(), 20);
    let (map, moves) = doc1.save_aux();
    let mut doc2 = SVGDocCrdt2::new("r2".to_string());
    doc2.merge_aux(map.clone(), moves.clone());
    doc2.merge_aux(map, moves);
    let (_, history) = doc2.save_aux();
    assert_eq!(history.len(), 2);
    assert_eq!(doc2.tree(), doc1.tree());
}

#[test]
fn moves_arrive_in_any_order() {
    let mut doc1 = SVGDocCrdt2::new("r1".to_string());
    doc1.add_group_with(None, PartialSVGGroup::empty(), "g".to_string(), 10);
    doc1.add_circle_with(None, PartialSVGCircle::empty(), "a".to_string(), 20);
    doc1.move_object_at(Some("g".to_string()), "a".to_string(), None, 30);
    doc1.move_object_at(None, "a".to_string(), Some(0), 40);
    let (map, moves) = doc1.save_aux();
    let mut backwards = moves.clone();
    backwards.reverse();
    let mut doc2 = SVGDocCrdt2::new("r2".to_string());
    doc2.merge_aux(map.clone(), backwards);
    let mut doc3 = SVGDocCrdt2::new("r3".to_string());
    doc3.merge_aux(map, moves);
    let (_, h2) = doc2.save_aux();
    let (_, h3) = doc3.save_aux();
    assert_eq!(h2, h3);
    assert_eq!(h2.iter().map(|m| m.timestamp).collect::<Vec<_>>(), vec![10, 20, 30, 40]);
    assert_eq!(doc2.tree(), doc1.tree());
    assert_eq!(doc3.tree(), doc1.tree());
    assert_eq!(ids(&doc1), vec!["a", "g"]);
}

#[test]
fn save_and_load_restore_the_document() {
    let mut doc = SVGDocCrdt2::new("r1".to_string());
    doc.add_group(None, PartialSVGGroup::empty());
    let g = ids(&doc)[0].clone();
    doc.add_circle(Some(g.clone()), PartialSVGCircle::empty());
    doc.add_rectangle(None, vect_crdt_rs::prelude::PartialSVGRectangle::empty());
    let (map, history) = doc.save_aux();
    let mut copy = SVGDocCrdt2::new("r2".to_string());
    copy.add_circle(None, PartialSVGCircle::empty());
    copy.load_aux(map, history);
    assert_eq!(copy.tree(), doc.tree());
    copy.clear();
    assert_eq!(copy.tree().children.len(), 0);
}

#[test]
fn path_points_are_added_edited_and_removed() {
    let mut doc = SVGDocCrdt2::new("r1".to_string());
    doc.add_path_with(None, PartialSVGPath::empty(), "p".to_string(), &vec![], 1);
    doc.add_point_to_path_with(
        "p".to_string(),
        SVGPathCommandType::START,
        Vec2 { x: 1, y: 2 },
        "s".to_string(),
        2,
    );
    doc.add_point_to_path_with(
        "p".to_string(),
        SVGPathCommandType::BEZIER,
        Vec2 { x: 10, y: 10 },
        "b".to_string(),
        3,
    );
    doc.add_point_to_path_with(
        "p".to_string(),
        SVGPathCommandType::BEZIER_QUAD,
        Vec2 { x: 5, y: 5 },
        "q".to_string(),
        4,
    );
    let points = doc.get_path("p".to_string()).expect("path").points;
    assert_eq!(points.len(), 3);
    assert_eq!(points[0], SVGPathCommand::Start { id: "s".to_string(), pos: Vec2 { x: 1, y: 2 } });
    assert_eq!(
        points[1],
        SVGPathCommand::Bezier {
            id: "b".to_string(),
            handle1: Vec2 { x: 30, y: 30 },
            handle2: Vec2 { x: 30, y: -10 },
            pos: Vec2 { x: 10, y: 10 }
        }
    );
    assert_eq!(
        points[2],
        SVGPathCommand::BezierQuad {
            id: "q".to_string(),
            handle: Vec2 { x: 5, y: 25 },
            pos: Vec2 { x: 5, y: 5 }
        }
    );

    doc.edit_path_point_pos_at("p".to_string(), "s".to_string(), Vec2 { x: 7, y: 8 }, 5);
    doc.edit_path_point_handle1_at("p".to_string(), "b".to_string(), Vec2 { x: 1, y: 1 }, 6);
    doc.edit_path_point_handle2_at("p".to_string(), "b".to_string(), Vec2 { x: 2, y: 2 }, 7);
    doc.edit_path_point_handle1_at("p".to_string(), "q".to_string(), Vec2 { x: 3, y: 3 }, 8);
    // a change that does not fit the step is ignored
    doc.edit_path_point_handle2_at("p".to_string(), "s".to_string(), Vec2 { x: 9, y: 9 }, 9);
    doc.edit_path_point_handle2_at("p".to_string(), "q".to_string(), Vec2 { x: 9, y: 9 }, 9);
    doc.edit_path_point_pos_at("p".to_string(), "nobody".to_string(), Vec2 { x: 9, y: 9 }, 9);
    let points = doc.get_path("p".to_string()).expect("path").points;
    assert_eq!(points[0], SVGPathCommand::Start { id: "s".to_string(), pos: Vec2 { x: 7, y: 8 } });
    assert_eq!(
        points[1],
        SVGPathCommand::Bezier {
            id: "b".to_string(),
            handle1: Vec2 { x: 1, y: 1 },
            handle2: Vec2 { x: 2, y: 2 },
            pos: Vec2 { x: 10, y: 10 }
        }
    );
    assert_eq!(
        points[2],
        SVGPathCommand::BezierQuad {
            id: "q".to_string(),
            handle: Vec2 { x: 3, y: 3 },
            pos: Vec2 { x: 5, y: 5 }
        }
    );

    doc.edit_path_point_type_with(
        "p".to_string(),
        "s".to_string(),
        SVGPathCommandType::LINE,
        "l".to_string(),
        10,
    );
    doc.remove_path_point_at("p".to_string(), "b".to_string(), 11);
    let points = doc.get_path("p".to_string()).expect("path").points;
    assert_eq!(points.len(), 2);
    assert_eq!(points[0], SVGPathCommand::Line { id: "l".to_string(), pos: Vec2 { x: 0, y: 0 } });
    assert_eq!(points[1].get_id(), "q");

    doc.edit_path_point_type("p".to_string(), "q".to_string(), SVGPathCommandType::CLOSE);
    doc.add_point_to_path("p".to_string(), SVGPathCommandType::LINE, Vec2 { x: 1, y: 1 });
    doc.edit_path_point_pos("p".to_string(), "l".to_string(), Vec2 { x: 4, y: 4 });
    doc.remove_path_point("p".to_string(), "nobody".to_string());
    let points = doc.get_path("p".to_string()).expect("path").points;
    assert_eq!(points.len(), 3);
    assert!(matches!(points[1], SVGPathCommand::Close { .. }));
    assert_eq!(points[0], SVGPathCommand::Line { id: "l".to_string(), pos: Vec2 { x: 4, y: 4 } });
}

#[test]
fn handles_stay_inside_the_range_of_coordinates() {
    let c = SVGPathCommand::at(
        SVGPathCommandType::BEZIER,
        "b".to_string(),
        Vec2 { x: i32::MAX, y: i32::MIN },
    );
    assert_eq!(
        c,
        SVGPathCommand::Bezier {
            id: "b".to_string(),
            handle1: Vec2 { x: i32::MAX, y: i32::MIN + 20 },
            handle2: Vec2 { x: i32::MAX, y: i32::MIN },
            pos: Vec2 { x: i32::MAX, y: i32::MIN }
        }
    );
}

#[test]
fn path_edits_name_their_points() {
    let mut path = SVGPath::with_id("p".to_string());
    let partial = PartialSVGPath {
        fill: None,
        stroke_width: Some(9),
        stroke: None,
        opacity: Some(Scalar::from_bits(0.25f32.to_bits())),
        points: Some(vec![
            PartialSVGPathCommand::Start { pos: None },
            PartialSVGPathCommand::Bezier { handle1: None, handle2: None, pos: None },
            PartialSVGPathCommand::BezierQuad { handle: None, pos: Some(Vec2 { x: 1, y: 1 }) },
            PartialSVGPathCommand::Close {},
        ]),
    };
    let ids = vec!["a".to_string(), "b".to_string(), "c".to_string(), "d".to_string()];
    assert!(path.apply_some_with(partial.clone(), &ids));
    assert_eq!(path.stroke_width, 9);
    assert_eq!(path.points.len(), 4);
    assert_eq!(
        path.points[1],
        SVGPathCommand::Bezier {
            id: "b".to_string(),
            handle1: Vec2 { x: 5, y: 5 },
            handle2: Vec2 { x: 5, y: -5 },
            pos: Vec2 { x: 0, y: 0 }
        }
    );
    assert_eq!(
        path.points[2],
        SVGPathCommand::BezierQuad {
            id: "c".to_string(),
            handle: Vec2 { x: 5, y: 5 },
            pos: Vec2 { x: 1, y: 1 }
        }
    );
    assert_eq!(path.points[3], SVGPathCommand::Close { id: "d".to_string() });
    let mut other = SVGPath::with_id("o".to_string());
    other.apply_some(partial);
    assert_eq!(other.points.len(), 4);
    assert_eq!(SVGPathCommand::from_partial(PartialSVGPathCommand::Close {}).get_id().len(), 16);
    // the opacity alone does not count as a change of a path
    let mut only_opacity = PartialSVGPath::empty();
    only_opacity.opacity = Some(Scalar::one());
    assert!(!other.apply_some(only_opacity));
}

#[test]
fn the_shown_tree_carries_the_names_of_the_nodes() {
    let mut doc = SVGDocCrdt2::new("r1".to_string());
    doc.add_group_with(None, PartialSVGGroup::empty(), "g".to_string(), 1);
    doc.add_group_with(Some("g".to_string()), PartialSVGGroup::empty(), "h".to_string(), 2);
    doc.add_circle_with(Some("h".to_string()), PartialSVGCircle::empty(), "c".to_string(), 3);
    doc.add_circle_with(Some("g".to_string()), PartialSVGCircle::empty(), "d".to_string(), 4);
    let tree = doc.tree();
    assert_eq!(tree.children.len(), 1);
    let SVGObject::Group(g) = &tree.children[0] else { panic!("group") };
    assert_eq!(g.id, "g");
    assert_eq!(g.children.iter().map(|o| o.get_id()).collect::<Vec<_>>(), vec!["h", "d"]);
    let SVGObject::Group(h) = &g.children[0] else { panic!("group") };
    assert_eq!(h.children.iter().map(|o| o.get_id()).collect::<Vec<_>>(), vec!["c"]);
    assert!(doc.is_ancestor(&"g".to_string(), &"c".to_string()));
    assert!(!doc.is_ancestor(&"c".to_string(), &"g".to_string()));
    assert!(doc.is_group(&"h".to_string()));
    // a removed group takes what is inside out of sight
    doc.remove_object("h".to_string());
    let tree = doc.tree();
    let SVGObject::Group(g) = &tree.children[0] else { panic!("group") };
    assert_eq!(g.children.iter().map(|o| o.get_id()).collect::<Vec<_>>(), vec!["d"]);
}

fn collect_names(objects: &[SVGObject], into: &mut Vec<String>) {
    for o in objects {
        into.push(o.get_id().to_string());
        if let SVGObject::Group(g) = o {
            collect_names(&g.children, into);
        }
    }
}

#[test]
fn no_node_is_shown_twice() {
    let mut doc = SVGDocCrdt2::new("r1".to_string());
    doc.add_group_with(None, PartialSVGGroup::empty(), "g".to_string(), 1);
    doc.add_group_with(Some("g".to_string()), PartialSVGGroup::empty(), "h".to_string(), 2);
    doc.add_circle_with(Some("h".to_string()), PartialSVGCircle::empty(), "c".to_string(), 3);
    doc.add_circle_with(None, PartialSVGCircle::empty(), "d".to_string(), 4);
    doc.move_object_at(Some("g".to_string()), "d".to_string(), Some(0), 5);
    doc.move_object_at(None, "h".to_string(), None, 6);
    doc.move_object_at(Some("h".to_string()), "g".to_string(), None, 7);
    let mut names = Vec::new();
    collect_names(&doc.tree().children, &mut names);
    assert_eq!(names, vec!["h", "c", "g", "d"]);
    let mut sorted = names.clone();
    sorted.sort();
    sorted.dedup();
    assert_eq!(sorted.len(), names.len());
}

#[test]
fn the_later_of_two_moves_wins_whichever_arrives_first() {
    let mut base = SVGDocCrdt2::new("r0".to_string());
    base.add_group_with(None, PartialSVGGroup::empty(), "g1".to_string(), 1);
    base.add_group_with(None, PartialSVGGroup::empty(), "g2".to_string(), 2);
    base.add_circle_with(None, PartialSVGCircle::empty(), "c".to_string(), 3);
    let (map, history) = base.save_aux();

    let mut doc1 = SVGDocCrdt2::new("r1".to_string());
    doc1.load_aux(map.clone(), history.clone());
    let mut doc2 = SVGDocCrdt2::new("r2".to_string());
    doc2.load_aux(map, history);

    doc1.move_object_at(Some("g1".to_string()), "c".to_string(), None, 10);
    doc2.move_object_at(Some("g2".to_string()), "c".to_string(), None, 20);

    let (m1, l1) = doc1.broadcast_aux();
    let (m2, l2) = doc2.broadcast_aux();
    doc1.merge_aux(m2, l2);
    doc2.merge_aux(m1, l1);

    assert_eq!(doc1.tree(), doc2.tree());
    let tree = doc1.tree();
    let SVGObject::Group(g1) = &tree.children[0] else { panic!("group") };
    let SVGObject::Group(g2) = &tree.children[1] else { panic!("group") };
    assert_eq!(g1.id, "g1");
    assert_eq!(g1.children.len(), 0);
    assert_eq!(g2.children.iter().map(|o| o.get_id()).collect::<Vec<_>>(), vec!["c"]);
    let (_, history) = doc1.save_aux();
    assert_eq!(history.last().map(|m| m.timestamp), Some(20));
}
