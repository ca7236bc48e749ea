use linked_data::dataset::Dataset;
use linked_data::dataset_graph_view::DatasetGraphView;
use linked_data::ResourceInterpretation;

fn resource(identity: &ResourceInterpretation) -> usize {
    match identity {
        ResourceInterpretation::Interpreted(r) => *r,
        ResourceInterpretation::Uninterpreted(_) => panic!("walked nodes are resources"),
    }
}

#[test]
fn dataset_lists_predicates_and_objects_once() {
    let mut dataset = Dataset::new();
    assert_eq!(dataset.insert(1, 10, 2, None), Some(true));
    assert_eq!(dataset.insert(1, 10, 3, None), Some(true));
    assert_eq!(dataset.insert(1, 11, 2, None), Some(true));
    assert_eq!(dataset.insert(1, 10, 2, None), Some(false));
    assert_eq!(dataset.insert(1, 12, 4, Some(7)), Some(true));
    assert_eq!(dataset.len(), 4);
    let mut predicates = dataset.predicates_of(None, 1);
    predicates.sort();
    assert_eq!(predicates, vec![10, 11]);
    let mut objects = dataset.objects_of(None, 1, 10);
    objects.sort();
    assert_eq!(objects, vec![2, 3]);
    assert_eq!(dataset.objects_of(Some(7), 1, 12), vec![4]);
    assert_eq!(dataset.objects_of(None, 1, 12), Vec::<usize>::new());
    assert_eq!(dataset.predicates_of(None, 2), Vec::<usize>::new());
    assert!(dataset.contains_resource(7));
    assert!(!dataset.contains_resource(8));
}

#[test]
fn dataset_refuses_a_quad_that_repeats_an_unknown_resource() {
    let mut dataset = Dataset::new();
    assert_eq!(dataset.insert(1, 10, 1, None), None);
    assert_eq!(dataset.len(), 0);
    assert_eq!(dataset.insert(1, 10, 2, None), Some(true));
    assert_eq!(dataset.insert(1, 10, 1, None), Some(true));
    assert_eq!(dataset.len(), 2);
    let mut objects = dataset.objects_of(None, 1, 10);
    objects.sort();
    assert_eq!(objects, vec![1, 2]);
}

#[test]
fn walk_cuts_a_cycle_at_the_second_occurrence() {
    // A -p-> B -p-> A
    let (a, b, p) = (1, 2, 10);
    let mut dataset = Dataset::new();
    dataset.insert(a, p, b, None);
    dataset.insert(b, p, a, None);
    let view = DatasetGraphView { dataset: &dataset, graph: None, resource: a };
    let root = view.visit_subject();
    assert_eq!(resource(&root.identity), a);
    assert_eq!(root.predicates.len(), 1);
    assert_eq!(resource(&root.predicates[0].predicate), p);
    assert_eq!(root.predicates[0].objects.len(), 1);
    let second = &root.predicates[0].objects[0];
    assert_eq!(resource(&second.identity), b);
    assert_eq!(second.predicates.len(), 1);
    assert_eq!(second.predicates[0].objects.len(), 1);
    let again = &second.predicates[0].objects[0];
    assert_eq!(resource(&again.identity), a);
    assert_eq!(again.predicates.len(), 0);
}

#[test]
fn walk_reads_a_resource_in_full_on_each_sibling_path() {
    // R -p-> A, R -q-> B, B -p-> A, A -p-> X: A is reached on two paths.
    let (r, a, b, x, p, q) = (1, 2, 3, 4, 10, 11);
    let mut dataset = Dataset::new();
    dataset.insert(r, p, a, None);
    dataset.insert(r, q, b, None);
    dataset.insert(b, p, a, None);
    dataset.insert(a, p, x, None);
    let view = DatasetGraphView { dataset: &dataset, graph: None, resource: r };
    let root = view.visit_subject();
    assert_eq!(root.predicates.len(), 2);
    let mut seen = 0;
    for property in &root.predicates {
        for object in &property.objects {
            if resource(&object.identity) == a {
                assert_eq!(object.predicates.len(), 1);
                assert_eq!(resource(&object.predicates[0].objects[0].identity), x);
                seen += 1;
            } else {
                assert_eq!(resource(&object.identity), b);
                let inner = &object.predicates[0].objects[0];
                assert_eq!(resource(&inner.identity), a);
                assert_eq!(inner.predicates.len(), 1);
                seen += 1;
            }
        }
    }
    assert_eq!(seen, 2);
}

#[test]
fn walk_of_a_self_loop_stops_after_one_step() {
    let (a, b, p) = (1, 2, 10);
    let mut dataset = Dataset::new();
    dataset.insert(a, p, b, None);
    dataset.insert(a, p, a, None);
    let view = DatasetGraphView { dataset: &dataset, graph: None, resource: a };
    let root = view.visit_subject();
    assert_eq!(root.predicates.len(), 1);
    assert_eq!(root.predicates[0].objects.len(), 2);
    for object in &root.predicates[0].objects {
        assert_eq!(object.predicates.len(), 0);
    }
}
