use ev3nav::graph::{
    find_path, goto_point, load_json, name_position, normalize_ang, plan_moves, route_is_plannable,
    try_goto_point, Edge, LineRide, MapDocument, MoveAction, NeighbourRecord, PointRecord,
};

fn rec(x: i64, y: i64, neighbors: &[(i64, i64)]) -> PointRecord {
    PointRecord {
        x,
        y,
        kind: 1,
        neighbors: neighbors.iter().map(|&(id, ang)| NeighbourRecord { id, ang }).collect(),
    }
}

/// START -- MID, with EAST and WEST hanging off MID.
fn plus_map() -> MapDocument {
    MapDocument {
        pnames: vec!["START".to_string(), "MID".to_string(), "EAST".to_string(), "WEST".to_string()],
        pvals: vec![
            rec(0, 0, &[(1, 0)]),
            rec(0, 10, &[(0, 180), (2, 90), (3, 270)]),
            rec(10, 10, &[(1, 270)]),
            rec(-10, 10, &[(1, 90)]),
        ],
        edges: vec![(0, 1), (1, 2), (1, 3)],
    }
}

#[test]
fn load_json_builds_nodes_and_edges() {
    let (graph, names) = load_json(plus_map());
    assert_eq!(names, vec!["START", "MID", "EAST", "WEST"]);
    assert_eq!(graph.node_count(), 4);
    assert_eq!(graph.edge_count(), 3);
    let mid = graph.node_weight(petgraph::graph::NodeIndex::new(1)).unwrap();
    assert_eq!(mid.name, "MID");
    assert_eq!((mid.x, mid.y, mid.kind), (0, 10, 1));
    assert_eq!(mid.neighbors.len(), 3);
    assert_eq!((mid.neighbors[1].id, mid.neighbors[1].angle), (2, 90));
    let e = graph.edge_weight(petgraph::graph::EdgeIndex::new(1)).unwrap();
    assert_eq!(*e, Edge::CrossLine);
    let ends = graph.edge_endpoints(petgraph::graph::EdgeIndex::new(1)).unwrap();
    assert_eq!((ends.0.index(), ends.1.index()), (1, 2));
}

#[test]
fn load_json_pairs_names_with_values_up_to_the_shorter_list() {
    let mut doc = plus_map();
    doc.pnames.push("EXTRA".to_string());
    doc.pvals.truncate(3);
    doc.edges = vec![(0, 1), (1, 2)];
    let (graph, names) = load_json(doc);
    assert_eq!(graph.node_count(), 3);
    assert_eq!(names.len(), 5);
}

#[test]
fn load_json_truncates_wide_values() {
    let doc = MapDocument {
        pnames: vec!["A".to_string()],
        pvals: vec![rec(4294967297, -1, &[(4294967298, 360)])],
        edges: vec![(4294967296, 0)],
    };
    let (graph, _) = load_json(doc);
    let a = graph.node_weight(petgraph::graph::NodeIndex::new(0)).unwrap();
    assert_eq!(a.x, 1);
    assert_eq!(a.y, -1);
    assert_eq!(a.neighbors[0].id, 2);
    let ends = graph.edge_endpoints(petgraph::graph::EdgeIndex::new(0)).unwrap();
    assert_eq!((ends.0.index(), ends.1.index()), (0, 0));
}

#[test]
fn find_path_gives_the_shortest_route() {
    let (graph, _) = load_json(plus_map());
    let (cost, path) = find_path(0, 2, &graph);
    assert_eq!(cost, 2);
    assert_eq!(path, vec![0, 1, 2]);
    let (cost, path) = find_path(3, 2, &graph);
    assert_eq!(cost, 2);
    assert_eq!(path, vec![3, 1, 2]);
    assert_eq!(find_path(2, 2, &graph), (0, vec![2]));
}

#[test]
fn goto_a_neighbour_arrives_along_its_line() {
    let map = load_json(plus_map());
    for ang in [0, 45, 180, 300] {
        let (_, heading) = goto_point(&map, "MID".to_string(), "WEST".to_string(), ang);
        assert_eq!(heading, 270);
        let (_, heading) = goto_point(&map, "START".to_string(), "MID".to_string(), ang);
        assert_eq!(heading, 0);
    }
}

#[test]
fn normalize_ang_values() {
    assert_eq!(normalize_ang(400), 40);
    assert_eq!(normalize_ang(720), 0);
    assert_eq!(normalize_ang(360), 360);
    assert_eq!(normalize_ang(0), 0);
    assert_eq!(normalize_ang(-30), 330);
    assert_eq!(normalize_ang(-360), 0);
    // below one full turn back the planner's rule leaves the heading negative
    assert_eq!(normalize_ang(-400), -40);
}

#[test]
fn goto_point_plans_moves_along_the_route() {
    let map = load_json(plus_map());
    let (moves, ang) = goto_point(&map, "START".to_string(), "EAST".to_string(), 0);
    assert_eq!(moves, vec![MoveAction::LineRide(LineRide::CrossStop), MoveAction::Rotate(2)]);
    assert_eq!(ang, 90);
}

#[test]
fn goto_point_turning_left_and_stopping_at_a_side_line() {
    let map = load_json(plus_map());
    let (moves, ang) = goto_point(&map, "EAST".to_string(), "START".to_string(), 270);
    // EAST -> MID along 270 (no turn), stop at MID: lines at 180 (left) only
    // MID -> START along 180: turn right by 90 degrees
    assert_eq!(moves, vec![MoveAction::LineRide(LineRide::LeftStop), MoveAction::Rotate(-2)]);
    assert_eq!(ang, 180);
}

#[test]
fn try_goto_point_refuses_unknown_names_and_missing_routes() {
    let map = load_json(plus_map());
    assert!(try_goto_point(&map, "NOWHERE".to_string(), "EAST".to_string(), 0).is_none());
    assert!(try_goto_point(&map, "START".to_string(), "NOWHERE".to_string(), 0).is_none());
    let mut doc = plus_map();
    doc.edges = vec![(0, 1)];
    let cut = load_json(doc);
    assert!(try_goto_point(&cut, "START".to_string(), "EAST".to_string(), 0).is_none());
    let planned = try_goto_point(&map, "START".to_string(), "EAST".to_string(), 0).unwrap();
    assert_eq!(planned, goto_point(&map, "START".to_string(), "EAST".to_string(), 0));
}

#[test]
fn try_goto_point_refuses_a_route_without_a_line_to_follow() {
    let mut doc = plus_map();
    // MID lists no line to EAST
    doc.pvals[1].neighbors.remove(1);
    let map = load_json(doc);
    assert!(try_goto_point(&map, "START".to_string(), "EAST".to_string(), 0).is_none());
}

#[test]
fn plan_moves_on_a_given_route() {
    let (graph, _) = load_json(plus_map());
    let path = vec![3usize, 1, 0];
    assert!(route_is_plannable(&graph, &path, 90));
    let (moves, ang) = plan_moves(&graph, &path, 90);
    assert_eq!(ang, 180);
    assert_eq!(moves.len(), 2);
    assert_eq!(moves[0], MoveAction::LineRide(LineRide::RightStop));
    assert_eq!(plan_moves(&graph, &vec![2usize], 45), (vec![], 45));
    assert!(!route_is_plannable(&graph, &vec![0usize, 2], 0));
    assert!(!route_is_plannable(&graph, &vec![], 0));
    assert!(!route_is_plannable(&graph, &vec![7usize], 0));
}

#[test]
fn name_position_finds_the_first() {
    let names = vec!["A".to_string(), "B".to_string(), "A".to_string()];
    assert_eq!(name_position(&names, &"A".to_string()), Some(0));
    assert_eq!(name_position(&names, &"B".to_string()), Some(1));
    assert_eq!(name_position(&names, &"C".to_string()), None);
}
