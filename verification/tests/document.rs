use vect_crdt_rs::prelude::{
    JSNullable, PartialSVGCircle, PartialSVGGroup, PartialSVGPath, PartialSVGRectangle, SVGDocCrdt2,
    SVGObject, Scalar,
};

fn half() -> Scalar {
    Scalar::from_bits(0.5f32.to_bits())
}

fn as_f32(s: Scalar) -> f32 {
    f32::from_bits(s.bits)
}

fn empty_rectangle() -> PartialSVGRectangle {
    PartialSVGRectangle::empty()
}

fn merge_docs(doc1: &mut SVGDocCrdt2, doc2: &mut SVGDocCrdt2) {
    let (d1_node_map, d1_move_logs) = doc1.broadcast_aux();
    let (d2_node_map, d2_move_logs) = doc2.broadcast_aux();
    doc2.merge_aux(d1_node_map, d1_move_logs);
    doc1.merge_aux(d2_node_map, d2_move_logs);

    let t1 = doc1.tree();
    let t2 = doc2.tree();
    assert_eq!(t1, t2);
}

#[test]
fn core2_test_create_circle() {
    let r1 = "r1";
    let mut doc = SVGDocCrdt2::new(r1.to_string());
    doc.add_circle(None, PartialSVGCircle::empty());
    let tree = doc.tree();
    assert_eq!(tree.children.len(), 1);
    match tree.children.get(0) {
        Some(SVGObject::Circle(_)) => {}
        _ => {
            panic!("Circle should be at index 0");
        }
    }
}

#[test]
fn test_create_group() {
    let r1 = "r1";
    let mut doc = SVGDocCrdt2::new(r1.to_string());
    doc.add_group(None, PartialSVGGroup::empty());
    let tree = doc.tree();
    assert_eq!(tree.children.len(), 1);
    match tree.children.get(0) {
        Some(SVGObject::Group(_)) => {}
        _ => {
            panic!("Group should be at index 0");
        }
    }
}

#[test]
fn test_create_circle_within_group() {
    let r1 = "r1";
    let mut doc = SVGDocCrdt2::new(r1.to_string());
    doc.add_group(None, PartialSVGGroup::empty());
    let tree = doc.tree();
    let group_id = match tree.children.get(0) {
        Some(SVGObject::Group(g)) => &g.id,
        _ => {
            panic!("Group should be at index 0");
        }
    };
    doc.add_circle(Some(group_id.clone()), PartialSVGCircle::empty());
    doc.add_circle(Some(group_id.clone()), PartialSVGCircle::empty());
    let tree = doc.tree();
    let group = match tree.children.get(0) {
        Some(SVGObject::Group(g)) => g,
        _ => {
            panic!("Group should be at index 0")
        }
    };
    match group.children.get(0) {
        Some(SVGObject::Circle(_)) => {}
        _ => {
            panic!("Circle should be within group at index 0");
        }
    };
    match group.children.get(1) {
        Some(SVGObject::Circle(_)) => {}
        _ => {
            panic!("Circle should be within group at index 1")
        }
    }
}

#[test]
fn test_no_cycle() {
    let r1 = "r1";
    let mut doc = SVGDocCrdt2::new(r1.to_string());
    doc.add_group(None, PartialSVGGroup::empty());
    let tree = doc.tree();
    let group_id = match tree.children.get(0) {
        Some(SVGObject::Group(g)) => &g.id,
        _ => panic!("Group should exist at index 0"),
    };
    doc.add_group(Some(group_id.clone()), PartialSVGGroup::empty());
    let tree = doc.tree();
    let group = match tree.children.get(0) {
        Some(SVGObject::Group(g)) => g,
        _ => panic!("Group should exist at index 0"),
    };
    let child_group_id = match group.children.get(0) {
        Some(SVGObject::Group(g)) => &g.id,
        _ => panic!("Group should exist within group at index 0"),
    };
    doc.move_object(Some(child_group_id.to_string()), group_id.clone(), Some(0));
    let tree = doc.tree();
    assert_eq!(tree.children.len(), 1);
    let group = match tree.children.get(0) {
        Some(SVGObject::Group(g)) => g,
        _ => panic!("Group should exist at index 0"),
    };
    assert_eq!(group.children.len(), 1);
    match group.children.get(0) {
        Some(SVGObject::Group(_)) => {}
        _ => panic!("Inner group child should exist"),
    };
}

#[test]
fn test_move() {
    let r1 = "r1";
    let mut doc = SVGDocCrdt2::new(r1.to_string());
    doc.add_circle(None, PartialSVGCircle::empty());
    doc.add_group(None, PartialSVGGroup::empty());
    let tree = doc.tree();
    assert_eq!(tree.children.len(), 2);
    let circle_id = match tree.children.get(0) {
        Some(SVGObject::Circle(circle)) => &circle.id,
        _ => panic!("Circle should exist at index 0"),
    };
    let group_id = match tree.children.get(1) {
        Some(SVGObject::Group(group)) => &group.id,
        _ => panic!("Group should exist at index 1"),
    };
    doc.move_object(Some(group_id.clone()), circle_id.clone(), None);
    let tree = doc.tree();
    assert_eq!(tree.children.len(), 1);
    let group = match tree.children.get(0) {
        Some(SVGObject::Group(group)) => group,
        _ => panic!("Group should exist at index 0"),
    };
    assert_eq!(group.children.len(), 1);
    match group.children.get(0) {
        Some(SVGObject::Circle(_)) => {}
        _ => panic!("Circle should exist at index 0"),
    };
}

#[test]
fn test_move_order() {
    let r1 = "r1";
    let mut doc = SVGDocCrdt2::new(r1.to_string());
    doc.add_circle(None, PartialSVGCircle::empty());
    doc.add_circle(None, PartialSVGCircle::empty());
    let tree = doc.tree();
    assert_eq!(tree.children.len(), 2);
    let first_id = match tree.children.get(0) {
        Some(SVGObject::Circle(circle)) => &circle.id,
        _ => panic!("Circle should exist at index 0"),
    };
    let second_id = match tree.children.get(1) {
        Some(SVGObject::Circle(circle)) => &circle.id,
        _ => panic!("Circle should exist at index 1"),
    };
    assert_ne!(first_id, second_id);
    doc.move_object(None, first_id.clone(), Some(1));
    let tree = doc.tree();
    assert_eq!(tree.children.len(), 2);
    let act_first_id = match tree.children.get(0) {
        Some(SVGObject::Circle(circle)) => &circle.id,
        _ => panic!("Circle should exist at index 0"),
    };
    let act_second_id = match tree.children.get(1) {
        Some(SVGObject::Circle(circle)) => &circle.id,
        _ => panic!("Circle should exist at index 1"),
    };
    assert_eq!(second_id, act_first_id);
    assert_eq!(first_id, act_second_id);
}

fn circle_id_at(doc: &SVGDocCrdt2, i: usize) -> String {
    match doc.tree().children.get(i) {
        Some(SVGObject::Circle(circle)) => circle.id.clone(),
        _ => panic!("Circle should exist at index {}", i),
    }
}

#[test]
fn test_move_order_multiple() {
    let r1 = "r1";
    let mut doc = SVGDocCrdt2::new(r1.to_string());
    doc.add_circle(None, PartialSVGCircle::empty());
    doc.add_circle(None, PartialSVGCircle::empty());
    doc.add_circle(None, PartialSVGCircle::empty());
    doc.add_circle(None, PartialSVGCircle::empty());
    doc.add_circle(None, PartialSVGCircle::empty());
    let first_id = circle_id_at(&doc, 0);
    let second_id = circle_id_at(&doc, 1);
    let third_id = circle_id_at(&doc, 2);
    let fourth_id = circle_id_at(&doc, 3);
    let fifth_id = circle_id_at(&doc, 4);
    doc.move_object(None, first_id.clone(), Some(1));
    doc.move_object(None, third_id.clone(), Some(0));
    doc.move_object(None, fifth_id.clone(), Some(1));
    doc.move_object(None, fourth_id.clone(), Some(1));
    let act_first_id = circle_id_at(&doc, 0);
    let act_second_id = circle_id_at(&doc, 1);
    let act_third_id = circle_id_at(&doc, 2);
    let act_fourth_id = circle_id_at(&doc, 3);
    let act_fifth_id = circle_id_at(&doc, 4);
    assert_eq!(third_id, act_first_id);
    assert_eq!(fourth_id, act_second_id);
    assert_eq!(fifth_id, act_third_id);
    assert_eq!(second_id, act_fourth_id);
    assert_eq!(first_id, act_fifth_id);
}

#[test]
fn test_merge_create_one_circle() {
    let r1 = "r1";
    let r2 = "r2";
    let mut doc1 = SVGDocCrdt2::new(r1.to_string());
    let mut doc2 = SVGDocCrdt2::new(r2.to_string());
    doc1.add_circle(None, PartialSVGCircle::empty());
    doc2.add_circle(None, PartialSVGCircle::empty());
    let (d1_node_map, d1_move_logs) = doc1.broadcast_aux();
    let (d2_node_map, d2_move_logs) = doc2.broadcast_aux();
    doc2.merge_aux(d1_node_map, d1_move_logs);
    doc1.merge_aux(d2_node_map, d2_move_logs);
    let t1 = doc1.tree();
    let t2 = doc2.tree();
    assert_eq!(t1.children.len(), 2);
    assert_eq!(t1, t2);
}

#[test]
fn test_merge_move_order_multiple() {
    let r1 = "r1";
    let r2 = "r2";
    let mut doc1 = SVGDocCrdt2::new(r1.to_string());
    let mut doc2 = SVGDocCrdt2::new(r2.to_string());
    doc1.add_circle(None, PartialSVGCircle::empty());
    doc1.add_circle(None, PartialSVGCircle::empty());
    doc1.add_circle(None, PartialSVGCircle::empty());
    let first_id = circle_id_at(&doc1, 0);
    let second_id = circle_id_at(&doc1, 1);
    let third_id = circle_id_at(&doc1, 2);

    let (r1_node_map, r1_move_history) = doc1.broadcast_aux();
    doc2.merge_aux(r1_node_map, r1_move_history);
    doc2.move_object(None, first_id.clone(), Some(2));
    doc1.move_object(None, second_id.clone(), Some(0));

    let (r1_node_map, r1_move_history) = doc1.broadcast_aux();
    let (r2_node_map, r2_move_history) = doc2.broadcast_aux();
    doc1.merge_aux(r2_node_map, r2_move_history);
    doc2.merge_aux(r1_node_map, r1_move_history);

    let t1 = doc1.tree();
    let t2 = doc2.tree();
    let act_first_id = circle_id_at(&doc1, 0);
    let act_second_id = circle_id_at(&doc1, 1);
    let act_third_id = circle_id_at(&doc1, 2);
    assert_eq!(act_first_id, second_id);
    assert_eq!(act_second_id, third_id);
    assert_eq!(act_third_id, first_id);
    assert_eq!(t1, t2);
}

#[test]
fn test_move_conflict() {
    let r1 = "r1";
    let r2 = "r2";
    let mut doc1 = SVGDocCrdt2::new(r1.to_string());
    let mut doc2 = SVGDocCrdt2::new(r2.to_string());
    doc1.add_circle(None, PartialSVGCircle::empty());
    doc1.add_circle(None, PartialSVGCircle::empty());
    doc1.add_circle(None, PartialSVGCircle::empty());
    let first_id = circle_id_at(&doc1, 0);
    let second_id = circle_id_at(&doc1, 1);
    let third_id = circle_id_at(&doc1, 2);

    let (r1_node_map, r1_move_history) = doc1.broadcast_aux();
    doc2.merge_aux(r1_node_map, r1_move_history);
    let mut edits = PartialSVGCircle::empty();
    edits.opacity = Some(half());
    doc2.move_object(None, first_id.clone(), Some(2));
    doc2.edit_circle(first_id.clone(), edits);
    doc1.move_object(None, first_id.clone(), Some(1));

    let (r1_node_map, r1_move_history) = doc1.broadcast_aux();
    let (r2_node_map, r2_move_history) = doc2.broadcast_aux();
    doc1.merge_aux(r2_node_map, r2_move_history);
    doc2.merge_aux(r1_node_map, r1_move_history);

    let t1 = doc1.tree();
    let t2 = doc2.tree();
    let act_first_id = circle_id_at(&doc1, 0);
    let act_second_id = circle_id_at(&doc1, 1);
    let act_third_id = circle_id_at(&doc1, 2);
    assert_eq!(act_first_id, second_id);
    assert_eq!(act_second_id, first_id);
    assert_eq!(act_third_id, third_id);
    match doc1.get_circle(first_id.clone()) {
        Some(circle) => {
            assert_eq!(as_f32(circle.opacity), 0.5);
        }
        _ => panic!("Circle should exist"),
    };
    assert_eq!(t1, t2);
}

#[test]
fn core2_test_delete() {
    let r1 = "r1".to_string();
    let mut doc1 = SVGDocCrdt2::new(r1.clone());
    doc1.add_circle(None, PartialSVGCircle::empty());
    let tree = doc1.tree();
    assert_eq!(tree.children.len(), 1);
    let circle_id = match tree.children.get(0) {
        Some(SVGObject::Circle(circle)) => circle.id.clone(),
        _ => panic!("Circle should exist at index 0"),
    };
    doc1.remove_object(circle_id);
    let tree = doc1.tree();
    assert_eq!(tree.children.len(), 0);
}

#[test]
fn test_merge_delete_move() {
    let r1 = "r1".to_string();
    let r2 = "r2".to_string();

    let mut doc1 = SVGDocCrdt2::new(r1.clone());
    let mut doc2 = SVGDocCrdt2::new(r2.clone());

    doc1.add_circle(None, PartialSVGCircle::empty());

    merge_docs(&mut doc1, &mut doc2);

    let t2 = doc2.tree();
    let circle_id = match t2.children.get(0) {
        Some(SVGObject::Circle(circle)) => circle.id.clone(),
        _ => panic!("Circle should exist at index 0"),
    };

    let mut edits = PartialSVGCircle::empty();
    edits.opacity = Some(half());
    doc2.edit_circle(circle_id.clone(), edits);
    doc1.remove_object(circle_id);

    merge_docs(&mut doc1, &mut doc2);

    let t1 = doc1.tree();
    let t2 = doc2.tree();

    match t1.children.get(0) {
        Some(SVGObject::Circle(circle)) => {
            assert_eq!(as_f32(circle.opacity), 0.5, "Circle opacity should be 0.5");
        }
        _ => panic!("Circle should exist at index 0"),
    };

    assert_eq!(t1, t2);
}

#[test]
fn test_delete_group_with_children() {
    let r1 = "r1".to_string();

    let mut doc1 = SVGDocCrdt2::new(r1);
    doc1.add_group(None, PartialSVGGroup::empty());
    let tree = doc1.tree();
    let group_id = match tree.children.get(0) {
        Some(SVGObject::Group(g)) => g.id.clone(),
        _ => panic!("Group should exist"),
    };
    doc1.add_circle(Some(group_id.clone()), PartialSVGCircle::empty());

    let tree = doc1.tree();
    let group = match tree.children.get(0) {
        Some(SVGObject::Group(g)) => g,
        _ => panic!("Group should exist"),
    };
    let _ = match group.children.get(0) {
        Some(SVGObject::Circle(c)) => c.id.clone(),
        _ => panic!("Circle should exist"),
    };
    doc1.remove_object(group_id.clone());
    let tree = doc1.tree();
    assert_eq!(tree.children.len(), 0);
}

#[test]
fn test_case_1_edit_different_attributes_circle() {
    let r1 = "r1".to_string();
    let r2 = "r2".to_string();

    let mut doc1 = SVGDocCrdt2::new(r1);
    let mut doc2 = SVGDocCrdt2::new(r2);

    doc1.add_circle(None, PartialSVGCircle::empty());
    merge_docs(&mut doc1, &mut doc2);

    let t1 = doc1.tree();
    let circle_id = match t1.children.get(0) {
        Some(SVGObject::Circle(c)) => &c.id,
        _ => panic!("Circle should exist"),
    };

    let mut edits1 = PartialSVGCircle::empty();
    edits1.opacity = Some(half());
    doc1.edit_circle(circle_id.to_string(), edits1);

    let mut edits2 = PartialSVGCircle::empty();
    edits2.radius = Some(100);

    doc2.edit_circle(circle_id.to_string(), edits2);

    merge_docs(&mut doc1, &mut doc2);

    let tree = doc1.tree();
    match tree.children.get(0) {
        Some(SVGObject::Circle(c)) => {
            assert_eq!(as_f32(c.opacity), 0.5);
            assert_eq!(c.radius, 100);
        }
        _ => panic!("Circle should exist"),
    };
}

#[test]
fn test_case_1_edit_different_attributes_rect() {
    let r1 = "r1".to_string();
    let r2 = "r2".to_string();

    let mut doc1 = SVGDocCrdt2::new(r1);
    let mut doc2 = SVGDocCrdt2::new(r2);

    doc1.add_rectangle(None, empty_rectangle());
    merge_docs(&mut doc1, &mut doc2);

    let t1 = doc1.tree();
    let rect_id = match t1.children.get(0) {
        Some(SVGObject::Rectangle(r)) => &r.id,
        _ => panic!("Rectangle should exist"),
    };

    let mut edits1 = empty_rectangle();
    edits1.opacity = Some(half());
    doc1.edit_rectangle(rect_id.to_string(), edits1);

    let mut edits2 = empty_rectangle();
    edits2.width = Some(100);

    doc2.edit_rectangle(rect_id.to_string(), edits2);
    merge_docs(&mut doc1, &mut doc2);

    let tree = doc1.tree();
    match tree.children.get(0) {
        Some(SVGObject::Rectangle(c)) => {
            assert_eq!(as_f32(c.opacity), 0.5);
            assert_eq!(c.width, 100);
        }
        _ => panic!("Rectangle should exist"),
    };
}

#[test]
fn test_case_1_edit_different_attributes_path() {
    let r1 = "r1".to_string();
    let r2 = "r2".to_string();

    let mut doc1 = SVGDocCrdt2::new(r1);
    let mut doc2 = SVGDocCrdt2::new(r2);

    doc1.add_path(None, PartialSVGPath::empty());
    merge_docs(&mut doc1, &mut doc2);

    let t1 = doc1.tree();

    let path_id = t1
        .children
        .get(0)
        .map(|it| {
            let SVGObject::Path(o) = it else {
                return None;
            };
            Some(&o.id)
        })
        .flatten()
        .expect("Path should exist");

    let mut edits1 = PartialSVGPath::empty();
    edits1.opacity = Some(half());
    doc1.edit_path(path_id.to_string(), edits1);

    let mut edits2 = PartialSVGPath::empty();
    edits2.stroke_width = Some(100);
    doc2.edit_path(path_id.to_string(), edits2);

    merge_docs(&mut doc1, &mut doc2);

    let tree = doc1.tree();
    let path = tree
        .children
        .get(0)
        .map(|it| {
            let SVGObject::Path(o) = it else {
                return None;
            };
            Some(o)
        })
        .flatten()
        .expect("Path should exist");
    assert_eq!(as_f32(path.opacity), 0.5);
    assert_eq!(path.stroke_width, 100);
}

#[test]
fn test_case_1_edit_different_attributes_group() {
    let r1 = "r1".to_string();
    let r2 = "r2".to_string();

    let mut doc1 = SVGDocCrdt2::new(r1);
    let mut doc2 = SVGDocCrdt2::new(r2);

    doc1.add_group(None, PartialSVGGroup::empty());
    merge_docs(&mut doc1, &mut doc2);

    let t1 = doc1.tree();

    let group_id = t1
        .children
        .get(0)
        .map(|it| {
            let SVGObject::Group(o) = it else {
                return None;
            };
            Some(&o.id)
        })
        .flatten()
        .expect("Group should exist");

    let mut edits1 = PartialSVGGroup::empty();
    edits1.opacity = Some(JSNullable::Value { item: half() });
    doc1.edit_group(group_id.to_string(), edits1);

    let mut edits2 = PartialSVGGroup::empty();
    edits2.stroke_width = Some(JSNullable::Value { item: 100 });
    doc2.edit_group(group_id.to_string(), edits2);

    merge_docs(&mut doc1, &mut doc2);

    let tree = doc1.tree();
    let group = tree
        .children
        .get(0)
        .map(|it| {
            let SVGObject::Group(o) = it else {
                return None;
            };
            Some(o)
        })
        .flatten()
        .expect("Group should exist");
    assert_eq!(group.opacity.map(as_f32), Some(0.5));
    assert_eq!(group.stroke_width, Some(100));
}

#[test]
fn test_case_2_concurrent_edit_and_delete() {
    let r1 = "r1".to_string();
    let r2 = "r2".to_string();

    let mut doc1 = SVGDocCrdt2::new(r1);
    let mut doc2 = SVGDocCrdt2::new(r2);

    doc1.add_circle(None, PartialSVGCircle::empty());

    merge_docs(&mut doc1, &mut doc2);

    let t1 = doc1.tree();
    let circle_id = t1
        .children
        .get(0)
        .map(|it| if let SVGObject::Circle(o) = it { Some(&o.id) } else { None })
        .flatten()
        .expect("Circle should exist");

    let mut edits = PartialSVGCircle::empty();
    edits.opacity = Some(half());
    doc1.edit_circle(circle_id.clone(), edits);

    doc2.remove_object(circle_id.clone());

    merge_docs(&mut doc1, &mut doc2);

    let t1 = doc2.tree();
    let circle = t1
        .children
        .get(0)
        .map(|it| if let SVGObject::Circle(o) = it { Some(o) } else { None })
        .flatten()
        .expect("Circle should exist");
    assert_eq!(as_f32(circle.opacity), 0.5);
}

#[test]
fn test_case_2_concurrent_move_and_delete() {
    let r1 = "r1".to_string();
    let r2 = "r2".to_string();

    let mut doc1 = SVGDocCrdt2::new(r1);
    let mut doc2 = SVGDocCrdt2::new(r2);

    doc1.add_group(None, PartialSVGGroup::empty());
    doc1.add_circle(None, PartialSVGCircle::empty());

    merge_docs(&mut doc1, &mut doc2);

    let tree = doc1.tree();

    let group_id = tree
        .children
        .get(0)
        .map(|it| if let SVGObject::Group(o) = it { Some(&o.id) } else { None })
        .flatten()
        .expect("Group should exist");

    let circle_id = tree
        .children
        .get(1)
        .map(|it| if let SVGObject::Circle(o) = it { Some(&o.id) } else { None })
        .flatten()
        .expect("Circle should exist");

    doc1.move_object(Some(group_id.to_string()), circle_id.to_string(), None);

    doc2.remove_object(circle_id.to_string());

    merge_docs(&mut doc1, &mut doc2);

    let tree = doc1.tree();

    let group = tree
        .children
        .get(0)
        .map(|it| if let SVGObject::Group(o) = it { Some(o) } else { None })
        .flatten()
        .expect("Group should exist");

    let circle = group
        .children
        .get(0)
        .map(|it| if let SVGObject::Circle(o) = it { Some(o) } else { None })
        .flatten()
        .expect("Circle should exist");

    assert_eq!(circle_id, &circle.id)
}

#[test]
fn test_case_3_concurrent_move_to_different_groups() {
    let r1 = "r1".to_string();
    let r2 = "r2".to_string();

    let mut doc1 = SVGDocCrdt2::new(r1);
    let mut doc2 = SVGDocCrdt2::new(r2);

    doc1.add_group(None, PartialSVGGroup::empty());
    doc1.add_group(None, PartialSVGGroup::empty());
    doc1.add_rectangle(None, empty_rectangle());

    merge_docs(&mut doc1, &mut doc2);

    let tree = doc1.tree();
    let group1_id = tree
        .children
        .get(0)
        .map(|it| if let SVGObject::Group(o) = it { Some(&o.id) } else { None })
        .flatten()
        .expect("Group should exist");

    let group2_id = tree
        .children
        .get(1)
        .map(|it| if let SVGObject::Group(o) = it { Some(&o.id) } else { None })
        .flatten()
        .expect("Group should exist");

    let rect_id = tree
        .children
        .get(2)
        .map(|it| if let SVGObject::Rectangle(o) = it { Some(&o.id) } else { None })
        .flatten()
        .expect("Rectangle should exist");

    doc1.move_object(Some(group1_id.to_string()), rect_id.to_string(), None);
    doc2.move_object(Some(group2_id.to_string()), rect_id.to_string(), None);

    merge_docs(&mut doc1, &mut doc2);

    let tree = doc1.tree();

    let group1 = tree
        .children
        .get(0)
        .map(|it| if let SVGObject::Group(o) = it { Some(o) } else { None })
        .flatten()
        .expect("Group should exist");
    let group2 = tree
        .children
        .get(1)
        .map(|it| if let SVGObject::Group(o) = it { Some(o) } else { None })
        .flatten()
        .expect("Group should exist");

    let rect = group2
        .children
        .get(0)
        .map(|it| if let SVGObject::Rectangle(o) = it { Some(o) } else { None })
        .flatten()
        .expect("Rectangle should exist");

    assert_eq!(group1.children.len(), 0);
    assert_eq!(group2.children.len(), 1);
    assert_eq!(&rect.id, rect_id);
    assert_eq!(tree.children.len(), 2);
}
