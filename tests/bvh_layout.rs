use path_tracer::bvh::BvhLayout;

fn leaves(layout: &BvhLayout, out: &mut Vec<usize>) {
    match layout {
        BvhLayout::Leaf { index } => out.push(*index),
        BvhLayout::Pair { left } => {
            out.push(*left);
            out.push(*left + 1);
        }
        BvhLayout::Split { left, right, .. } => {
            leaves(left, out);
            leaves(right, out);
        }
    }
}

#[test]
fn single_object_is_a_leaf() {
    assert_eq!(BvhLayout::build(0, 1), BvhLayout::Leaf { index: 0 });
    assert_eq!(BvhLayout::build(4, 5), BvhLayout::Leaf { index: 4 });
}

#[test]
fn two_objects_need_no_split() {
    assert_eq!(BvhLayout::build(3, 5), BvhLayout::Pair { left: 3 });
}

#[test]
fn five_objects_split_at_the_middle_index() {
    let expected = BvhLayout::Split {
        start: 0,
        mid: 2,
        end: 5,
        left: Box::new(BvhLayout::Pair { left: 0 }),
        right: Box::new(BvhLayout::Split {
            start: 2,
            mid: 3,
            end: 5,
            left: Box::new(BvhLayout::Leaf { index: 2 }),
            right: Box::new(BvhLayout::Pair { left: 3 }),
        }),
    };
    assert_eq!(BvhLayout::build(0, 5), expected);
}

#[test]
fn every_object_is_a_leaf_once() {
    for n in 1..200usize {
        let layout = BvhLayout::for_list(n).unwrap();
        let mut got = Vec::new();
        leaves(&layout, &mut got);
        assert_eq!(got, (0..n).collect::<Vec<usize>>());
    }
}

#[test]
fn empty_list_has_no_hierarchy() {
    assert!(BvhLayout::for_list(0).is_none());
}
