use vect_crdt_rs::prelude::{
    PartialSVGCircle, PartialSVGGroup, PartialSVGRectangle, SVGDocCrdt2, SVGObject, Scalar, Vec2,
};

fn empty_circle() -> PartialSVGCircle {
    PartialSVGCircle {
        fill: None,
        opacity: None,
        pos: None,
        radius: None,
        stroke: None,
        stroke_width: None,
    }
}

fn empty_rectangle() -> PartialSVGRectangle {
    PartialSVGRectangle {
        fill: None,
        pos: None,
        height: None,
        width: None,
        stroke_width: None,
        stroke: None,
        opacity: None,
    }
}

#[test]
fn doc_test_create_circle() {
    let mut doc = SVGDocCrdt2::new("1".to_string());
    let circle = empty_circle();
    doc.add_circle(None, circle);
    assert!(doc.tree().children.iter().all(|o| {
        match o {
            SVGObject::Circle(_) => true,
            _ => false,
        }
    }));
    assert_eq!(doc.tree().children.len(), 1)
}

#[test]
fn test_edit_circle() {
    let mut doc = SVGDocCrdt2::new("1".to_string());
    let circle = empty_circle();
    doc.add_circle(None, circle);
    assert_eq!(doc.tree().children.len(), 1);
    let circle_id = doc.tree().children[0].get_id().to_string();
    let mut circle_edits = empty_circle();
    circle_edits.pos = Some(Vec2 { x: 100, y: 50 });
    doc.edit_circle(circle_id, circle_edits);
    assert!(doc.tree().children.iter().all(|o| {
        match o {
            SVGObject::Circle(c) => c.pos.x == 100 && c.pos.y == 50,
            _ => false,
        }
    }));
    assert_eq!(doc.tree().children.len(), 1);
}

#[test]
fn test_remove_circle() {
    let mut doc = SVGDocCrdt2::new("1".to_string());
    let circle = empty_circle();
    doc.add_circle(None, circle);
    assert!(
        doc.tree().children.iter().all(|o| {
            match o {
                SVGObject::Circle(_) => true,
                _ => false,
            }
        }),
        "Assert circle exists"
    );
    assert_eq!(doc.tree().children.len(), 1, "Assert circle only element");

    let id = match &doc.tree().children[0] {
        SVGObject::Circle(c) => c.id.clone(),
        _ => panic!("Child should be a circle"),
    };

    doc.remove_object(id);
    assert_eq!(doc.tree().children.len(), 0, "Assert circle does not exist");
}

#[test]
fn test_create_rectangle() {
    let mut doc = SVGDocCrdt2::new("1".to_string());
    let rect = empty_rectangle();

    doc.add_rectangle(None, rect);
    assert!(
        doc.tree().children.iter().all(|o| {
            match o {
                SVGObject::Rectangle(_) => true,
                _ => false,
            }
        }),
        "Assert circle only element"
    );
    assert_eq!(doc.tree().children.len(), 1, "Assert rectangle only element")
}

#[test]
fn test_edit_rectangle() {
    let mut doc = SVGDocCrdt2::new("1".to_string());
    let rect = empty_rectangle();

    doc.add_rectangle(None, rect);

    let rect_id = doc.tree().children[0].get_id().to_string();
    let mut rect_edits = empty_rectangle();
    rect_edits.opacity = Some(Scalar::from_bits(0.5f32.to_bits()));
    doc.edit_rectangle(rect_id, rect_edits);
    assert!(doc.tree().children.iter().all(|o| {
        match o {
            SVGObject::Rectangle(o) => {
                if !(f32::from_bits(o.opacity.bits) == 0.5) {
                    return false;
                }
                return true;
            }
            _ => false,
        }
    }));
    assert_eq!(doc.tree().children.len(), 1, "assert only rectangle exists");
}

#[test]
fn test_move_ancestor_into_grandchild_failed() {
    let mut doc = SVGDocCrdt2::new("1".to_string());
    doc.add_group(None, PartialSVGGroup::empty());
    let group1_id = match &doc.tree().children[0] {
        SVGObject::Group(g) => g.id.clone(),
        _ => panic!("First should be group"),
    };
    doc.add_group(Some(group1_id.clone()), PartialSVGGroup::empty());
    let children = doc.tree();
    let group2_id = match children.children.get(0) {
        Some(SVGObject::Group(g)) => match &g.children.get(0) {
            Some(SVGObject::Group(g)) => g.id.clone(),
            _ => panic!("Child group should exist"),
        },
        _ => panic!("Group should exist"),
    };
    assert_eq!(doc.tree().children.len(), 1);

    // The move must fail, with nothing changed in the tree.
    doc.move_object(Some(group2_id.clone()), group1_id.clone(), Some(0));

    assert_eq!(doc.tree().children.len(), 1);

    let exp_group1_id = match &doc.tree().children[0] {
        SVGObject::Group(g) => g.id.clone(),
        _ => panic!("First should be group"),
    };
    let children = doc.tree();
    let exp_group2_id = match children.children.get(0) {
        Some(SVGObject::Group(g)) => match &g.children.get(0) {
            Some(SVGObject::Group(g)) => g.id.clone(),
            _ => panic!("Child group should exist"),
        },
        _ => panic!("Group should exist"),
    };

    assert_eq!(group1_id, exp_group1_id);
    assert_eq!(group2_id, exp_group2_id);
}

#[test]
fn test_merge() {
    let mut doc1 = SVGDocCrdt2::new("1".to_string());
    doc1.add_circle(None, PartialSVGCircle::empty());
    let (node_map, history) = doc1.save_aux();
    let mut doc2 = SVGDocCrdt2::new("2".to_string());
    doc2.merge_aux(node_map, history);
    let children1 = doc1.tree();
    let children2 = doc2.tree();
    let Some(SVGObject::Circle(expected_circle)) = children1.children.first() else {
        panic!("Expected circle should not be none");
    };
    let Some(SVGObject::Circle(result_circle)) = children2.children.first() else {
        panic!("Result circle should not be none");
    };
    assert_eq!(expected_circle.id, result_circle.id);
}
