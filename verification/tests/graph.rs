use rust_lab::graph::GraphNode;

#[test]
fn graph_top_sort() {
    let mut graph = GraphNode {
        value: "One",
        children: Vec::new(),
    };

    let child = GraphNode {
        value: "And",
        children: Vec::new(),
    };
    graph.add_node(&child);

    let child = GraphNode {
        value: "Thanos",
        children: Vec::new(),
    };
    let child2 = GraphNode {
        value: "Only",
        children: vec![&child],
    };
    graph.add_node(&child2);

    let order = graph.top_sort();
    println!("{:?}", order);
    assert_eq!(order, vec![&"One", &"And", &"Only", &"Thanos"]);
}

#[test]
fn search_finds_first_in_breadth_first_order() {
    let deep = GraphNode { value: 2u32, children: Vec::new() };
    let middle = GraphNode { value: 1u32, children: vec![&deep] };
    let shallow = GraphNode { value: 2u32, children: Vec::new() };
    let root = GraphNode { value: 0u32, children: vec![&middle, &shallow] };

    let found = root.search(2).unwrap();
    assert!(std::ptr::eq(found, &shallow));
    assert!(std::ptr::eq(root.search(0).unwrap(), &root));
    assert!(root.search(7).is_none());
}

#[test]
fn shared_node_is_walked_once_per_path() {
    let shared = GraphNode { value: 'x', children: Vec::new() };
    let left = GraphNode { value: 'l', children: vec![&shared] };
    let right = GraphNode { value: 'r', children: vec![&shared] };
    let root = GraphNode { value: 'o', children: vec![&left, &right] };
    let order: Vec<char> = root.top_sort().into_iter().copied().collect();
    assert_eq!(order, vec!['o', 'l', 'r', 'x', 'x']);
}
