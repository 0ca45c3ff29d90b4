//! The map of line crossings, and turning a route through it into moves.
use vstd::prelude::*;
use petgraph::{Graph, Undirected};

verus! {

/// What connects two crossings on the map.
#[derive(Debug, Clone, Copy, PartialEq, Eq, Structural)]
pub enum Edge {
    Empty,
    CrossLine,
}

/// A line leaving a crossing: the crossing it leads to and its heading in degrees.
#[derive(Debug, Clone, Copy, PartialEq, Eq, Structural)]
pub struct Neighbour {
    pub id: i32,
    pub angle: i32,
}

/// A crossing of the map.
#[derive(Debug, Clone)]
pub struct Point {
    pub x: i32,
    pub y: i32,
    pub kind: i32,
    pub name: String,
    pub neighbors: Vec<Neighbour>,
}

/// Where the robot stops when it follows a line to the next crossing.
#[derive(Debug, Clone, Copy, PartialEq, Eq, Structural)]
pub enum LineRide {
    CrossStop,
    LeftStop,
    RightStop,
}

/// One move of a planned route.
#[derive(Debug, Clone, Copy, PartialEq, Eq, Structural)]
pub enum MoveAction {
    LineRide(LineRide),
    Rotate(i32),
}

/// One line leaving a crossing, as the map file writes it.
#[derive(Debug, Clone, Copy)]
pub struct NeighbourRecord {
    pub id: i64,
    pub ang: i64,
}

/// One crossing, as the map file writes it.
#[derive(Debug, Clone)]
pub struct PointRecord {
    pub x: i64,
    pub y: i64,
    pub kind: i64,
    pub neighbors: Vec<NeighbourRecord>,
}

/// The whole map file: crossing names, crossing values in the same order, and
/// the edges as pairs of crossing indices.
#[derive(Debug, Clone)]
pub struct MapDocument {
    pub pnames: Vec<String>,
    pub pvals: Vec<PointRecord>,
    pub edges: Vec<(i64, i64)>,
}

/// petgraph's graph, held opaque: its contents are known through
/// `graph_nodes` and `graph_edges`.
#[verifier::external_type_specification]
#[verifier::external_body]
#[verifier::reject_recursive_types(N)]
#[verifier::reject_recursive_types(E)]
#[verifier::reject_recursive_types(Ty)]
#[verifier::reject_recursive_types(Ix)]
pub struct ExGraph<N, E, Ty, Ix>(Graph<N, E, Ty, Ix>);

/// petgraph's marker for graphs whose edges have no direction.
#[verifier::external_type_specification]
#[verifier::external_body]
pub struct ExUndirected(Undirected);

/// The crossings held by a map graph, in index order.
pub uninterp spec fn graph_nodes(g: Graph<Point, Edge, Undirected, u32>) -> Seq<Point>;

/// The edges held by a map graph, in insertion order: both ends and the weight.
pub uninterp spec fn graph_edges(g: Graph<Point, Edge, Undirected, u32>) -> Seq<(usize, usize, Edge)>;

/// `petgraph::Graph::new_undirected`: a graph with no nodes and no edges.
#[verifier::external_body]
fn graph_new() -> (g: Graph<Point, Edge, Undirected, u32>)
    ensures
        graph_nodes(g) == Seq::<Point>::empty(),
        graph_edges(g) == Seq::<(usize, usize, Edge)>::empty(),
{
    Graph::new_undirected()
}

/// `petgraph::Graph::node_count`: the number of nodes.
#[verifier::external_body]
fn graph_node_count(g: &Graph<Point, Edge, Undirected, u32>) -> (n: usize)
    ensures
        n == graph_nodes(*g).len(),
{
    g.node_count()
}

/// `petgraph::Graph::add_node`: appends the node, leaves the edges alone and
/// returns the new node's index. It panics when the `u32` index space is full,
/// which `requires` leaves out.
#[verifier::external_body]
fn graph_add_node(g: &mut Graph<Point, Edge, Undirected, u32>, p: Point) -> (i: usize)
    requires
        graph_nodes(*old(g)).len() < u32::MAX,
    ensures
        graph_nodes(*final(g)) == graph_nodes(*old(g)).push(p),
        graph_edges(*final(g)) == graph_edges(*old(g)),
        i == graph_nodes(*old(g)).len(),
{
    g.add_node(p).index()
}

/// `petgraph::Graph::add_edge`: appends the edge between two existing nodes and
/// leaves the nodes alone. It panics on an index out of bounds or when the
/// `u32` edge index space is full, which `requires` leaves out.
#[verifier::external_body]
fn graph_add_edge(g: &mut Graph<Point, Edge, Undirected, u32>, a: u32, b: u32, w: Edge)
    requires
        (a as int) < graph_nodes(*old(g)).len(),
        (b as int) < graph_nodes(*old(g)).len(),
        graph_edges(*old(g)).len() < u32::MAX,
    ensures
        graph_nodes(*final(g)) == graph_nodes(*old(g)),
        graph_edges(*final(g)) == graph_edges(*old(g)).push((a as usize, b as usize, w)),
{
    g.add_edge(petgraph::graph::NodeIndex::new(a as usize), petgraph::graph::NodeIndex::new(b as usize), w);
}

/// `petgraph::Graph::node_weight`: the node at an index, if there is one.
#[verifier::external_body]
fn graph_node_weight<'a>(g: &'a Graph<Point, Edge, Undirected, u32>, i: u32) -> (r: Option<&'a Point>)
    ensures
        r is Some <==> (i as int) < graph_nodes(*g).len(),
        r matches Some(p) ==> *p == graph_nodes(*g)[i as int],
{
    g.node_weight(petgraph::graph::NodeIndex::new(i as usize))
}

// ----------------------------------------------------------------------------
// Reading a map document into a graph.

/// The crossing that a neighbour record describes.
pub open spec fn neighbour_of(r: NeighbourRecord) -> Neighbour {
    Neighbour { id: r.id as i32, angle: r.ang as i32 }
}

/// `p` is the crossing built from `name` and the record `r`.
pub open spec fn is_point_of(p: Point, name: String, r: PointRecord) -> bool {
    &&& p.x == r.x as i32
    &&& p.y == r.y as i32
    &&& p.kind == r.kind as i32
    &&& p.name@ == name@
    &&& p.neighbors@ == r.neighbors@.map_values(|n: NeighbourRecord| neighbour_of(n))
}

/// The node index that a file index names: `NodeIndex::<u32>::new(v as usize)`.
pub open spec fn file_index(v: i64) -> usize {
    ((v as usize) as u32) as usize
}

/// The number of crossings a document yields: names and values are paired up
/// to the shorter of the two lists.
pub open spec fn document_node_count(doc: MapDocument) -> nat {
    if doc.pnames.len() <= doc.pvals.len() {
        doc.pnames.len() as nat
    } else {
        doc.pvals.len() as nat
    }
}

/// The document can be loaded: every edge names existing crossings and the
/// index spaces of the graph do not overflow.
pub open spec fn document_loadable(doc: MapDocument) -> bool {
    &&& document_node_count(doc) < u32::MAX
    &&& doc.edges.len() < u32::MAX
    &&& forall|k: int|
        0 <= k < doc.edges.len() ==> (file_index(#[trigger] doc.edges@[k].0) as int)
            < document_node_count(doc) && (file_index(doc.edges@[k].1) as int)
            < document_node_count(doc)
}

fn neighbours_of(recs: &Vec<NeighbourRecord>) -> (r: Vec<Neighbour>)
    ensures
        r@ == recs@.map_values(|n: NeighbourRecord| neighbour_of(n)),
{
    let mut r: Vec<Neighbour> = Vec::with_capacity(recs.len());
    let mut j: usize = 0;
    while j < recs.len()
        invariant
            j <= recs.len(),
            r@ == recs@.subrange(0, j as int).map_values(|n: NeighbourRecord| neighbour_of(n)),
        decreases recs.len() - j,
    {
        let a = recs[j];
        r.push(Neighbour { id: a.id as i32, angle: a.ang as i32 });
        assert(recs@.subrange(0, j + 1) == recs@.subrange(0, j as int).push(a));
        j = j + 1;
    }
    assert(recs@.subrange(0, recs.len() as int) == recs@);
    r
}

/// Builds the map graph from a parsed map document and hands back the
/// crossing names. Crossing `i` is made of `pnames[i]` and `pvals[i]`, for
/// every `i` below the shorter of the two lists; each edge joins the
/// crossings that its two file indices name.
pub fn load_json(doc: MapDocument) -> (r: (Graph<Point, Edge, Undirected, u32>, Vec<String>))
    requires
        document_loadable(doc),
    ensures
        graph_nodes(r.0).len() == document_node_count(doc),
        forall|i: int|
            0 <= i < document_node_count(doc) ==> is_point_of(
                #[trigger] graph_nodes(r.0)[i],
                doc.pnames@[i],
                doc.pvals@[i],
            ),
        graph_edges(r.0) == doc.edges@.map_values(
            |e: (i64, i64)| (file_index(e.0), file_index(e.1), Edge::CrossLine),
        ),
        r.1@ == doc.pnames@,
{
    let n: usize = if doc.pnames.len() <= doc.pvals.len() {
        doc.pnames.len()
    } else {
        doc.pvals.len()
    };
    let mut graph = graph_new();
    let mut i: usize = 0;
    while i < n
        invariant
            n == document_node_count(doc),
            n < u32::MAX,
            i <= n,
            graph_nodes(graph).len() == i,
            graph_edges(graph) == Seq::<(usize, usize, Edge)>::empty(),
            forall|k: int|
                0 <= k < i ==> is_point_of(#[trigger] graph_nodes(graph)[k], doc.pnames@[k], doc.pvals@[k]),
        decreases n - i,
    {
        let data = &doc.pvals[i];
        let neighbors_ready = neighbours_of(&data.neighbors);
        let point = Point {
            x: data.x as i32,
            y: data.y as i32,
            kind: data.kind as i32,
            name: doc.pnames[i].clone(),
            neighbors: neighbors_ready,
        };
        graph_add_node(&mut graph, point);
        i = i + 1;
    }
    let mut k: usize = 0;
    while k < doc.edges.len()
        invariant
            document_loadable(doc),
            graph_nodes(graph).len() == document_node_count(doc),
            k <= doc.edges.len(),
            forall|m: int|
                0 <= m < document_node_count(doc) ==> is_point_of(
                    #[trigger] graph_nodes(graph)[m],
                    doc.pnames@[m],
                    doc.pvals@[m],
                ),
            graph_edges(graph) == doc.edges@.subrange(0, k as int).map_values(
                |e: (i64, i64)| (file_index(e.0), file_index(e.1), Edge::CrossLine),
            ),
        decreases doc.edges.len() - k,
    {
        let edge = doc.edges[k];
        assert(file_index(doc.edges@[k as int].0) < document_node_count(doc));
        graph_add_edge(&mut graph, (edge.0 as usize) as u32, (edge.1 as usize) as u32, Edge::CrossLine);
        assert(doc.edges@.subrange(0, k + 1) == doc.edges@.subrange(0, k as int).push(edge));
        k = k + 1;
    }
    assert(doc.edges@.subrange(0, doc.edges.len() as int) == doc.edges@);
    (graph, doc.pnames)
}


// ----------------------------------------------------------------------------
// Headings.

/// `ang` brought into `0..=360` the way the planner does it: above 360 it
/// takes the remainder, below 0 it adds one full turn.
pub open spec fn normalized(ang: int) -> int {
    if ang > 360 {
        ang % 360
    } else if ang < 0 {
        360 + ang
    } else {
        ang
    }
}

/// Brings a heading into `0..=360`: above 360 the remainder by 360, below 0 one
/// full turn added, otherwise the heading itself.
pub fn normalize_ang(ang: i32) -> (r: i32)
    ensures
        r == normalized(ang as int),
{
    if ang > 360 {
        return ang % 360;
    }
    if ang < 0 {
        return 360 + ang;
    }
    if ang < -360 {
        return ((ang % 360) + 360) % 360;
    }
    ang
}

/// The turn from one heading to another, taken the short way round when the
/// raw difference is more than half a turn.
pub open spec fn wrapped_turn(diff: int) -> int {
    if diff > 180 {
        diff - 360
    } else if diff < -180 {
        diff + 360
    } else {
        diff
    }
}

// ----------------------------------------------------------------------------
// Looking up the line to the next crossing.

/// `i` is the first neighbour whose id is `id`.
pub open spec fn is_first_id_at(ns: Seq<Neighbour>, id: i32, i: int) -> bool {
    &&& 0 <= i < ns.len()
    &&& ns[i].id == id
    &&& forall|j: int| 0 <= j < i ==> #[trigger] ns[j].id != id
}

/// The heading of the first neighbour whose id is `id`, if there is one.
pub open spec fn heading_to(ns: Seq<Neighbour>, id: i32) -> Option<i32> {
    if exists|i: int| is_first_id_at(ns, id, i) {
        Some(ns[choose|i: int| is_first_id_at(ns, id, i)].angle)
    } else {
        None
    }
}

proof fn lemma_first_id_unique(ns: Seq<Neighbour>, id: i32, i: int, j: int)
    requires
        is_first_id_at(ns, id, i),
        is_first_id_at(ns, id, j),
    ensures
        i == j,
{
    if i < j {
        assert(ns[i].id != id);
    } else if j < i {
        assert(ns[j].id != id);
    }
}

/// Finds the heading of the first neighbour whose id is `id`.
fn find_heading(ns: &Vec<Neighbour>, id: i32) -> (r: Option<i32>)
    ensures
        r == heading_to(ns@, id),
{
    let mut j: usize = 0;
    while j < ns.len()
        invariant
            j <= ns.len(),
            forall|k: int| 0 <= k < j ==> #[trigger] ns@[k].id != id,
        decreases ns.len() - j,
    {
        if ns[j].id == id {
            proof {
                assert(is_first_id_at(ns@, id, j as int));
                let c = choose|i: int| is_first_id_at(ns@, id, i);
                lemma_first_id_unique(ns@, id, j as int, c);
            }
            return Some(ns[j].angle);
        }
        j = j + 1;
    }
    None
}

// ----------------------------------------------------------------------------
// Counting the lines passed while turning.

/// The tally kept while walking the lines of a crossing: how many lines lie
/// inside and outside the arc being turned through, and where the walk is.
pub struct EdgeTally {
    pub inside: int,
    pub outside: int,
    pub is_inside: bool,
    pub first_start: bool,
    pub passed_start: bool,
}

/// The tally before any line is looked at.
pub open spec fn tally_start() -> EdgeTally {
    EdgeTally { inside: 0, outside: 0, is_inside: false, first_start: true, passed_start: false }
}

/// Crossing the starting heading: the walk enters or leaves the arc, and
/// remembers whether it entered.
pub open spec fn tally_toggle_start(t: EdgeTally) -> EdgeTally {
    EdgeTally { is_inside: !t.is_inside, first_start: !t.is_inside, passed_start: true, ..t }
}

/// The tally after looking at one more line with heading `a`.
pub open spec fn tally_step(t: EdgeTally, a: i32, start: i32, finish: i32) -> EdgeTally {
    if a == start {
        tally_toggle_start(t)
    } else {
        let t1 = if a > start && !t.passed_start {
            tally_toggle_start(t)
        } else {
            t
        };
        if a == finish {
            EdgeTally { is_inside: !t1.is_inside, ..t1 }
        } else if t1.is_inside {
            EdgeTally { inside: t1.inside + 1, ..t1 }
        } else {
            EdgeTally { outside: t1.outside + 1, ..t1 }
        }
    }
}

/// The tally after the first `k` lines of a crossing.
pub open spec fn tally_upto(ns: Seq<Neighbour>, start: i32, finish: i32, k: nat) -> EdgeTally
    decreases k,
{
    if k == 0 {
        tally_start()
    } else {
        tally_step(tally_upto(ns, start, finish, (k - 1) as nat), ns[k - 1].angle, start, finish)
    }
}

/// The tally after all lines of a crossing.
pub open spec fn tally_of(ns: Seq<Neighbour>, start: i32, finish: i32) -> EdgeTally {
    tally_upto(ns, start, finish, ns.len())
}

/// The rotation, in lines to pass, for turning from `from` to `to` at a crossing
/// with lines `ns`: none when the headings agree, positive to the right.
pub open spec fn turn_moves(ns: Seq<Neighbour>, from: i32, to: i32) -> Seq<MoveAction> {
    let diff = wrapped_turn(to - from);
    let t = tally_of(ns, from, to);
    let first = t.passed_start && t.first_start;
    if diff > 0 && first {
        seq![MoveAction::Rotate((t.inside + 1) as i32)]
    } else if diff > 0 {
        seq![MoveAction::Rotate((t.outside + 1) as i32)]
    } else if diff < 0 && first {
        seq![MoveAction::Rotate((-(t.outside + 1)) as i32)]
    } else if diff < 0 {
        seq![MoveAction::Rotate((-(t.inside + 1)) as i32)]
    } else {
        Seq::empty()
    }
}


/// The rotation needed at a crossing with lines `ns` to turn from heading
/// `from` to heading `to`, if any.
fn turn_for(ns: &Vec<Neighbour>, from: i32, to: i32) -> (r: Option<MoveAction>)
    requires
        ns.len() < i32::MAX,
        i32::MIN <= to - from <= i32::MAX,
    ensures
        r matches Some(m) ==> turn_moves(ns@, from, to) == seq![m],
        r is None ==> turn_moves(ns@, from, to) == Seq::<MoveAction>::empty(),
{
    let diff = to - from;
    let diff = if diff > 180 {
        diff - 360
    } else if diff < -180 {
        diff + 360
    } else {
        diff
    };
    let mut inside_edges: i32 = 0;
    let mut outside_edges: i32 = 0;
    let mut is_inside = false;
    let mut is_first_start = true;
    let mut is_passed_start = false;
    let mut j: usize = 0;
    while j < ns.len()
        invariant
            ns.len() < i32::MAX,
            j <= ns.len(),
            0 <= inside_edges,
            0 <= outside_edges,
            inside_edges + outside_edges <= j,
            ({
                let t = tally_upto(ns@, from, to, j as nat);
                &&& t.inside == inside_edges
                &&& t.outside == outside_edges
                &&& t.is_inside == is_inside
                &&& t.first_start == is_first_start
                &&& t.passed_start == is_passed_start
            }),
        decreases ns.len() - j,
    {
        let a = ns[j].angle;
        let ghost before = tally_upto(ns@, from, to, j as nat);
        assert(tally_upto(ns@, from, to, (j + 1) as nat) == tally_step(before, a, from, to));
        if a == from {
            if is_inside {
                is_inside = false;
                is_first_start = false;
            } else {
                is_inside = true;
                is_first_start = true;
            }
            is_passed_start = true;
        } else {
            if a > from && !is_passed_start {
                if is_inside {
                    is_inside = false;
                    is_first_start = false;
                } else {
                    is_inside = true;
                    is_first_start = true;
                }
                is_passed_start = true;
            }
            if a == to {
                if is_inside {
                    is_inside = false;
                } else {
                    is_inside = true;
                }
            } else if is_inside {
                inside_edges = inside_edges + 1;
            } else {
                outside_edges = outside_edges + 1;
            }
        }
        j = j + 1;
    }
    if !is_passed_start {
        is_first_start = false;
    }
    if diff > 0 && is_first_start {
        Some(MoveAction::Rotate(inside_edges + 1))
    } else if diff > 0 && !is_first_start {
        Some(MoveAction::Rotate(outside_edges + 1))
    } else if diff < 0 && is_first_start {
        Some(MoveAction::Rotate(-(outside_edges + 1)))
    } else if diff < 0 && !is_first_start {
        Some(MoveAction::Rotate(-(inside_edges + 1)))
    } else {
        None
    }
}

// ----------------------------------------------------------------------------
// Where to stop on arrival.

/// Some line of `ns` points strictly between the headings `start` and `finish`,
/// going up from `start`; when `finish` is not above `start` the arc wraps
/// through 360.
pub open spec fn line_within(ns: Seq<Neighbour>, start: int, finish: int) -> bool {
    if start < finish {
        exists|j: int| 0 <= j < ns.len() && start < #[trigger] ns[j].angle && ns[j].angle < finish
    } else {
        exists|j: int|
            0 <= j < ns.len() && ((start < #[trigger] ns[j].angle && ns[j].angle < 360) || (
            ns[j].angle < finish && ns[j].angle >= 0))
    }
}

fn is_something_inside(ns: &Vec<Neighbour>, start: i32, finish: i32) -> (r: bool)
    ensures
        r == line_within(ns@, start as int, finish as int),
        finish <= start ==> (r <==> exists|j: int|
            0 <= j < ns@.len() && ((0 <= #[trigger] ns@[j].angle && ns@[j].angle < finish) || (start < ns@[j].angle
                && ns@[j].angle < 360))),
{
    let mut j: usize = 0;
    if start < finish {
        while j < ns.len()
            invariant
                start < finish,
                j <= ns.len(),
                forall|k: int| 0 <= k < j ==> !(start < #[trigger] ns@[k].angle < finish),
            decreases ns.len() - j,
        {
            let a = ns[j].angle;
            if a > start && a < finish {
                assert(ns@[j as int].angle == a);
                return true;
            }
            j = j + 1;
        }
    } else {
        while j < ns.len()
            invariant
                !(start < finish),
                j <= ns.len(),
                forall|k: int|
                    0 <= k < j ==> !((start < #[trigger] ns@[k].angle && ns@[k].angle < 360) || (
                    ns@[k].angle < finish && ns@[k].angle >= 0)),
            decreases ns.len() - j,
        {
            let a = ns[j].angle;
            if (a > start && a < 360) || (a < finish && a >= 0) {
                assert(ns@[j as int].angle == a);
                return true;
            }
            j = j + 1;
        }
    }
    false
}

/// Where to stop when arriving at a crossing with lines `ns` along heading `to`:
/// on the cross when lines leave on both sides, else on the side that has one.
pub open spec fn stop_moves(ns: Seq<Neighbour>, to: int) -> Seq<MoveAction> {
    let left = line_within(ns, normalized(to - 110), normalized(to - 70));
    let right = line_within(ns, normalized(to + 70), normalized(to + 110));
    if left && right {
        seq![MoveAction::LineRide(LineRide::CrossStop)]
    } else if left {
        seq![MoveAction::LineRide(LineRide::LeftStop)]
    } else if right {
        seq![MoveAction::LineRide(LineRide::RightStop)]
    } else {
        Seq::empty()
    }
}

fn stop_for(ns: &Vec<Neighbour>, to: i32) -> (r: Option<MoveAction>)
    requires
        i32::MIN + 110 <= to <= i32::MAX - 110,
    ensures
        r matches Some(m) ==> stop_moves(ns@, to as int) == seq![m],
        r is None ==> stop_moves(ns@, to as int) == Seq::<MoveAction>::empty(),
{
    let left_start = normalize_ang(to - 110);
    let left_finish = normalize_ang(to - 70);
    let right_start = normalize_ang(to + 70);
    let right_finish = normalize_ang(to + 110);
    let is_left_line = is_something_inside(ns, left_start, left_finish);
    let is_right_line = is_something_inside(ns, right_start, right_finish);
    if is_left_line && is_right_line {
        Some(MoveAction::LineRide(LineRide::CrossStop))
    } else if is_left_line {
        Some(MoveAction::LineRide(LineRide::LeftStop))
    } else if is_right_line {
        Some(MoveAction::LineRide(LineRide::RightStop))
    } else {
        None
    }
}


// ----------------------------------------------------------------------------
// Routes.

/// The heading of the hop from `path[k - 1]` to `path[k]`: the line of the
/// first crossing that leads to the second.
pub open spec fn hop_heading(nodes: Seq<Point>, path: Seq<usize>, k: int) -> Option<i32> {
    heading_to(nodes[path[k - 1] as int].neighbors@, path[k] as i32)
}

/// The robot's heading before hop `k` of the route: the start heading before
/// the first hop, the heading of hop `k - 1` after that.
pub open spec fn heading_before(nodes: Seq<Point>, path: Seq<usize>, ang: i32, k: int) -> i32 {
    if k <= 1 {
        ang
    } else {
        hop_heading(nodes, path, k - 1).unwrap()
    }
}

/// Hop `k` of the route can be planned: its crossing has a line to the next
/// one, and the headings involved stay within `i32`.
pub open spec fn hop_plannable(nodes: Seq<Point>, path: Seq<usize>, ang: i32, k: int) -> bool {
    let h = hop_heading(nodes, path, k);
    &&& h is Some
    &&& nodes[path[k - 1] as int].neighbors.len() < i32::MAX
    &&& i32::MIN + 110 <= h.unwrap() <= i32::MAX - 110
    &&& i32::MIN <= h.unwrap() - heading_before(nodes, path, ang, k) <= i32::MAX
}

/// The route can be planned: it is not empty, it names only crossings of the
/// map by `u32` indices, and every hop can be planned.
pub open spec fn route_plannable(nodes: Seq<Point>, path: Seq<usize>, ang: i32) -> bool {
    &&& path.len() >= 1
    &&& forall|k: int|
        0 <= k < path.len() ==> (#[trigger] path[k] as int) < nodes.len() && path[k] <= u32::MAX
    &&& forall|k: int| 1 <= k < path.len() ==> #[trigger] hop_plannable(nodes, path, ang, k)
}

/// The moves of hop `k`: the rotation at the crossing it leaves, then where to
/// stop at the crossing it reaches.
pub open spec fn hop_moves(nodes: Seq<Point>, path: Seq<usize>, ang: i32, k: int) -> Seq<MoveAction> {
    let to = hop_heading(nodes, path, k).unwrap();
    turn_moves(nodes[path[k - 1] as int].neighbors@, heading_before(nodes, path, ang, k), to)
        + stop_moves(nodes[path[k] as int].neighbors@, to as int)
}

/// The moves of the first `k` hops of the route.
pub open spec fn moves_upto(nodes: Seq<Point>, path: Seq<usize>, ang: i32, k: nat) -> Seq<MoveAction>
    decreases k,
{
    if k == 0 {
        Seq::empty()
    } else {
        moves_upto(nodes, path, ang, (k - 1) as nat) + hop_moves(nodes, path, ang, k as int)
    }
}

/// The moves of a whole route, and the heading at its end.
pub open spec fn route_moves(nodes: Seq<Point>, path: Seq<usize>, ang: i32) -> (Seq<MoveAction>, i32) {
    (moves_upto(nodes, path, ang, (path.len() - 1) as nat), heading_before(nodes, path, ang, path.len() as int))
}

/// Turns a route through the map (crossing indices, first the start) into
/// moves for the robot, starting with heading `current_ang`; also gives the
/// heading at the end of the route.
pub fn plan_moves(graph: &Graph<Point, Edge, Undirected, u32>, path: &Vec<usize>, current_ang: i32) -> (r: (Vec<MoveAction>, i32))
    requires
        route_plannable(graph_nodes(*graph), path@, current_ang),
    ensures
        (r.0@, r.1) == route_moves(graph_nodes(*graph), path@, current_ang),
{
    let ghost nodes = graph_nodes(*graph);
    proof {
        assert((path@[0] as int) < nodes.len());
    }
    let mut current_point = graph_node_weight(graph, path[0] as u32).unwrap();
    let mut current_ang: i32 = current_ang;
    let ghost ang0 = current_ang;
    let mut action_array: Vec<MoveAction> = Vec::with_capacity(path.len());
    let mut k: usize = 1;
    while k < path.len()
        invariant
            nodes == graph_nodes(*graph),
            route_plannable(nodes, path@, ang0),
            1 <= k <= path.len(),
            *current_point == nodes[path@[k - 1] as int],
            current_ang == heading_before(nodes, path@, ang0, k as int),
            action_array@ == moves_upto(nodes, path@, ang0, (k - 1) as nat),
        decreases path.len() - k,
    {
        let next_point = path[k];
        proof {
            assert((path@[k as int] as int) < nodes.len());
            assert(hop_plannable(nodes, path@, ang0, k as int));
        }
        let n_val = graph_node_weight(graph, next_point as u32).unwrap();
        let cur_neighbors = &current_point.neighbors;
        let next_neighbors = &n_val.neighbors;
        let target_ang = find_heading(cur_neighbors, next_point as i32).unwrap();
        let turn = turn_for(cur_neighbors, current_ang, target_ang);
        let ghost prev = action_array@;
        match turn {
            Some(m) => action_array.push(m),
            None => {},
        }
        let stop = stop_for(next_neighbors, target_ang);
        match stop {
            Some(m) => action_array.push(m),
            None => {},
        }
        proof {
            assert(action_array@ == prev + hop_moves(nodes, path@, ang0, k as int));
        }
        current_point = n_val;
        current_ang = target_ang;
        k = k + 1;
    }
    (action_array, current_ang)
}


// ----------------------------------------------------------------------------
// Searching the map.

/// An edge of the map joins `u` and `v`, in either direction.
pub open spec fn adjacent(edges: Seq<(usize, usize, Edge)>, u: usize, v: usize) -> bool {
    exists|k: int|
        0 <= k < edges.len() && ((#[trigger] edges[k].0 == u && edges[k].1 == v) || (edges[k].0
            == v && edges[k].1 == u))
}

/// Step `i` of the walk `w` follows an edge.
pub open spec fn walk_step(edges: Seq<(usize, usize, Edge)>, w: Seq<usize>, i: int) -> bool {
    adjacent(edges, w[i], w[i + 1])
}

/// `w` walks along edges from `start` to `finish`.
pub open spec fn is_walk(edges: Seq<(usize, usize, Edge)>, w: Seq<usize>, start: usize, finish: usize) -> bool {
    &&& w.len() >= 1
    &&& w[0] == start
    &&& w.last() == finish
    &&& forall|i: int| 0 <= i < w.len() - 1 ==> #[trigger] walk_step(edges, w, i)
}

/// What `petgraph::algo::astar` returns on a graph with `node_count` nodes and
/// the edges `edges`, searching from `start` for `finish` with every edge
/// costing 1 and no estimate: the cost and the nodes of the route.
pub uninterp spec fn unit_astar(node_count: nat, edges: Seq<(usize, usize, Edge)>, start: usize, finish: usize) -> Option<(i32, Seq<usize>)>;

/// The route a search gave, as plain values.
pub open spec fn route_view(r: Option<(i32, Vec<usize>)>) -> Option<(i32, Seq<usize>)> {
    match r {
        Some((c, p)) => Some((c, p@)),
        None => None,
    }
}

/// Whether the search has reached the node it looks for.
fn is_goal_node(node: usize, finish: usize) -> (b: bool)
    ensures
        b == (node == finish),
{
    node == finish
}

/// The cost of following one edge of the map.
fn hop_cost() -> (c: i32)
    ensures
        c == 1,
{
    1
}

/// The search's estimate of the cost still to go: none.
fn no_estimate() -> (c: i32)
    ensures
        c == 0,
{
    0
}

/// `petgraph::algo::astar` from `start` to the node whose index is `finish`, every edge
/// costing 1 and the estimate 0: the result is named by `unit_astar`. Besides,
/// as petgraph documents it, a result is a shortest walk along edges from
/// `start` to `finish` whose cost is its number of edges, every node after the
/// first an existing one; and a result is found whenever such a walk exists.
/// Which of several shortest walks comes back is left unsaid. The costs are
/// `i32`; `requires` keeps them from overflowing.
#[verifier::external_body]
fn graph_astar(g: &Graph<Point, Edge, Undirected, u32>, start: u32, finish: usize) -> (r: Option<(i32, Vec<usize>)>)
    requires
        graph_nodes(*g).len() < i32::MAX,
    ensures
        route_view(r) == unit_astar(graph_nodes(*g).len(), graph_edges(*g), start as usize, finish),
        r matches Some((c, p)) ==> {
            &&& is_walk(graph_edges(*g), p@, start as usize, finish)
            &&& c == p@.len() - 1
            &&& forall|i: int| 1 <= i < p@.len() ==> (#[trigger] p@[i] as int) < graph_nodes(*g).len()
            &&& forall|w: Seq<usize>| #[trigger] is_walk(graph_edges(*g), w, start as usize, finish) ==> p@.len() <= w.len()
        },
        (exists|w: Seq<usize>| #[trigger] is_walk(graph_edges(*g), w, start as usize, finish)) ==> r is Some,
{
    let found = petgraph::algo::astar(
        g,
        petgraph::graph::NodeIndex::new(start as usize),
        |node| is_goal_node(node.index(), finish),
        |_edge| hop_cost(),
        |_node| no_estimate(),
    );
    match found {
        Some((cost, path)) => Some((cost, path.iter().map(|n| n.index()).collect())),
        None => None,
    }
}

/// The node a crossing index names as a search start: `NodeIndex::new(start as usize)`.
pub open spec fn start_node(start: i32) -> usize {
    ((start as usize) as u32) as usize
}

/// Searches the map for a shortest route between two crossing indices, of
/// which the finish is reachable from the start: the start taken as
/// `NodeIndex::new(start as usize)`, the finish compared by index with
/// `finish as usize`. Gives the cost and the crossings of the route.
pub fn find_path(start: i32, finish: i32, graph: &Graph<Point, Edge, Undirected, u32>) -> (r: (i32, Vec<usize>))
    requires
        graph_nodes(*graph).len() < i32::MAX,
        exists|w: Seq<usize>| #[trigger] is_walk(graph_edges(*graph), w, start_node(start), finish as usize),
    ensures
        unit_astar(graph_nodes(*graph).len(), graph_edges(*graph), start_node(start), finish as usize)
            == Some((r.0, r.1@)),
        is_walk(graph_edges(*graph), r.1@, start_node(start), finish as usize),
        r.0 == r.1@.len() - 1,
        forall|w: Seq<usize>|
            #[trigger] is_walk(graph_edges(*graph), w, start_node(start), finish as usize) ==> r.1@.len() <= w.len(),
{
    let found = graph_astar(graph, (start as usize) as u32, finish as usize);
    found.unwrap()
}

// ----------------------------------------------------------------------------
// Going from one named crossing to another.

/// `i` is the first place where `names` holds `name`.
pub open spec fn is_first_name_at(names: Seq<String>, name: Seq<char>, i: int) -> bool {
    &&& 0 <= i < names.len()
    &&& names[i]@ == name
    &&& forall|j: int| 0 <= j < i ==> #[trigger] names[j]@ != name
}

/// The first place where `names` holds `name`, if any.
pub open spec fn name_index(names: Seq<String>, name: Seq<char>) -> Option<int> {
    if exists|i: int| is_first_name_at(names, name, i) {
        Some(choose|i: int| is_first_name_at(names, name, i))
    } else {
        None
    }
}

proof fn lemma_first_name_unique(names: Seq<String>, name: Seq<char>, i: int, j: int)
    requires
        is_first_name_at(names, name, i),
        is_first_name_at(names, name, j),
    ensures
        i == j,
{
    if i < j {
        assert(names[i]@ != name);
    } else if j < i {
        assert(names[j]@ != name);
    }
}

/// Finds the first place where `names` holds `name`.
pub fn name_position(names: &Vec<String>, name: &String) -> (r: Option<usize>)
    ensures
        match r {
            Some(i) => name_index(names@, name@) == Some(i as int),
            None => name_index(names@, name@) is None,
        },
{
    let mut i: usize = 0;
    while i < names.len()
        invariant
            i <= names.len(),
            forall|k: int| 0 <= k < i ==> #[trigger] names@[k]@ != name@,
        decreases names.len() - i,
    {
        if names[i] == *name {
            proof {
                assert(is_first_name_at(names@, name@, i as int));
                let c = choose|k: int| is_first_name_at(names@, name@, k);
                lemma_first_name_unique(names@, name@, i as int, c);
            }
            return Some(i);
        }
        i = i + 1;
    }
    None
}

/// The node index of a crossing's place in the name list: `NodeIndex::new(i)`.
pub open spec fn place_node(i: int) -> u32 {
    (i as usize) as u32
}

/// The route the map search yields between two named crossings.
pub open spec fn named_route(map: (Graph<Point, Edge, Undirected, u32>, Vec<String>), start_name: String, finish_name: String) -> Option<(i32, Seq<usize>)> {
    unit_astar(
        graph_nodes(map.0).len(),
        graph_edges(map.0),
        place_node(name_index(map.1@, start_name@).unwrap()) as usize,
        place_node(name_index(map.1@, finish_name@).unwrap()) as usize,
    )
}

/// Going from `start_name` to `finish_name` can be planned: both names are
/// on the map's list, the start is a crossing of the graph, the search stays
/// within its cost range and finds a route, and that route can be planned.
pub open spec fn goto_plannable(map: (Graph<Point, Edge, Undirected, u32>, Vec<String>), start_name: String, finish_name: String, current_ang: i32) -> bool {
    &&& name_index(map.1@, start_name@) is Some
    &&& name_index(map.1@, finish_name@) is Some
    &&& (place_node(name_index(map.1@, start_name@).unwrap()) as int) < graph_nodes(map.0).len()
    &&& graph_nodes(map.0).len() < i32::MAX
    &&& named_route(map, start_name, finish_name) is Some
    &&& route_plannable(graph_nodes(map.0), named_route(map, start_name, finish_name).unwrap().1, current_ang)
}

/// The moves, and the final heading, for going from `start_name` to
/// `finish_name` with heading `current_ang`.
pub open spec fn goto_moves(map: (Graph<Point, Edge, Undirected, u32>, Vec<String>), start_name: String, finish_name: String, current_ang: i32) -> (Seq<MoveAction>, i32) {
    route_moves(graph_nodes(map.0), named_route(map, start_name, finish_name).unwrap().1, current_ang)
}

/// The node the search starts from when going from `start_name`.
pub open spec fn goto_start(map: (Graph<Point, Edge, Undirected, u32>, Vec<String>), start_name: String) -> usize {
    place_node(name_index(map.1@, start_name@).unwrap()) as usize
}

/// The heading on arrival when the two named crossings are distinct and
/// joined by an edge: the heading of the start's first line to the finish.
pub open spec fn arrives_along_direct_line(map: (Graph<Point, Edge, Undirected, u32>, Vec<String>), start_name: String, finish_name: String, heading: i32) -> bool {
    let s = goto_start(map, start_name);
    let f = goto_start(map, finish_name);
    (adjacent(graph_edges(map.0), s, f) && s != f) ==> heading == heading_to(
        graph_nodes(map.0)[s as int].neighbors@,
        f as i32,
    ).unwrap()
}

/// The route between two named crossings walks along the map's edges from
/// the one to the other, and no such walk is shorter.
pub open spec fn route_is_shortest(map: (Graph<Point, Edge, Undirected, u32>, Vec<String>), start_name: String, finish_name: String) -> bool {
    let s = place_node(name_index(map.1@, start_name@).unwrap()) as usize;
    let f = place_node(name_index(map.1@, finish_name@).unwrap()) as usize;
    let p = named_route(map, start_name, finish_name).unwrap().1;
    &&& is_walk(graph_edges(map.0), p, s, f)
    &&& forall|w: Seq<usize>| #[trigger] is_walk(graph_edges(map.0), w, s, f) ==> p.len() <= w.len()
}

/// Plans the moves that take the robot from the crossing named `start_name`
/// to the one named `finish_name` along a shortest route of the map, starting
/// with heading `current_ang`; also gives the heading on arrival.
pub fn goto_point(
    graph: &(Graph<Point, Edge, Undirected, u32>, Vec<String>),
    start_name: String,
    finish_name: String,
    current_ang: i32,
) -> (r: (Vec<MoveAction>, i32))
    requires
        goto_plannable(*graph, start_name, finish_name, current_ang),
    ensures
        (r.0@, r.1) == goto_moves(*graph, start_name, finish_name, current_ang),
        route_is_shortest(*graph, start_name, finish_name),
        arrives_along_direct_line(*graph, start_name, finish_name, r.1),
{
    let g = &graph.0;
    let point_names = &graph.1;
    let sp_i = name_position(point_names, &start_name).unwrap();
    let fp_i = name_position(point_names, &finish_name).unwrap();
    let start_point = sp_i as u32;
    let finish_point = fp_i as u32;
    let found = graph_astar(g, start_point, finish_point as usize);
    let (_cost, path) = found.unwrap();
    proof {
        let sn = start_point as usize;
        let fnode = finish_point as usize;
        let edges = graph_edges(*g);
        if adjacent(edges, sn, fnode) && sn != fnode {
            let w = seq![sn, fnode];
            assert(walk_step(edges, w, 0));
            assert(is_walk(edges, w, sn, fnode));
            assert(path@.len() == 2);
            assert(path@ =~= w);
        }
    }
    plan_moves(g, &path, current_ang)
}

/// Checks that a route can be planned on the map's graph.
pub fn route_is_plannable(graph: &Graph<Point, Edge, Undirected, u32>, path: &Vec<usize>, current_ang: i32) -> (b: bool)
    ensures
        b == route_plannable(graph_nodes(*graph), path@, current_ang),
{
    let ghost nodes = graph_nodes(*graph);
    let n = graph_node_count(graph);
    if path.len() == 0 {
        return false;
    }
    let mut i: usize = 0;
    while i < path.len()
        invariant
            n == nodes.len(),
            nodes == graph_nodes(*graph),
            i <= path.len(),
            forall|k: int| 0 <= k < i ==> (#[trigger] path@[k] as int) < nodes.len() && path@[k] <= u32::MAX,
        decreases path.len() - i,
    {
        if path[i] >= n || path[i] > 4294967295usize {
            return false;
        }
        i = i + 1;
    }
    let mut heading: i32 = current_ang;
    let mut k: usize = 1;
    while k < path.len()
        invariant
            nodes == graph_nodes(*graph),
            path@.len() >= 1,
            forall|m: int| 0 <= m < path@.len() ==> (#[trigger] path@[m] as int) < nodes.len() && path@[m] <= u32::MAX,
            1 <= k <= path.len(),
            heading == heading_before(nodes, path@, current_ang, k as int),
            forall|m: int| 1 <= m < k ==> #[trigger] hop_plannable(nodes, path@, current_ang, m),
        decreases path.len() - k,
    {
        proof {
            assert((path@[k - 1] as int) < nodes.len());
        }
        let cur = graph_node_weight(graph, path[k - 1] as u32).unwrap();
        let target = find_heading(&cur.neighbors, path[k] as i32);
        let ok = match target {
            Some(t) => {
                let d: i64 = t as i64 - heading as i64;
                cur.neighbors.len() < 2147483647usize && -2147483538i32 <= t && t <= 2147483537i32
                    && -2147483648i64 <= d && d <= 2147483647i64
            },
            None => false,
        };
        if !ok {
            assert(!hop_plannable(nodes, path@, current_ang, k as int));
            return false;
        }
        heading = target.unwrap();
        k = k + 1;
    }
    true
}

/// Plans going from `start_name` to `finish_name` as `goto_point` does, or
/// gives `None` when that cannot be planned.
pub fn try_goto_point(
    graph: &(Graph<Point, Edge, Undirected, u32>, Vec<String>),
    start_name: String,
    finish_name: String,
    current_ang: i32,
) -> (r: Option<(Vec<MoveAction>, i32)>)
    ensures
        r is Some <==> goto_plannable(*graph, start_name, finish_name, current_ang),
        r matches Some(m) ==> (m.0@, m.1) == goto_moves(*graph, start_name, finish_name, current_ang)
            && route_is_shortest(*graph, start_name, finish_name)
            && arrives_along_direct_line(*graph, start_name, finish_name, m.1),
        ({
            &&& name_index(graph.1@, start_name@) is Some
            &&& name_index(graph.1@, finish_name@) is Some
            &&& (goto_start(*graph, start_name) as int) < graph_nodes(graph.0).len()
            &&& graph_nodes(graph.0).len() < i32::MAX
            &&& exists|w: Seq<usize>| #[trigger] is_walk(graph_edges(graph.0), w, goto_start(*graph, start_name), goto_start(*graph, finish_name))
        }) ==> named_route(*graph, start_name, finish_name) is Some,
{
    let g = &graph.0;
    let sp = name_position(&graph.1, &start_name);
    let fp = name_position(&graph.1, &finish_name);
    if sp.is_none() || fp.is_none() {
        return None;
    }
    let sp_i = sp.unwrap();
    let fp_i = fp.unwrap();
    let n = graph_node_count(g);
    if (sp_i as u32) as usize >= n || n >= 2147483647usize {
        return None;
    }
    let found = graph_astar(g, sp_i as u32, (fp_i as u32) as usize);
    match found {
        None => None,
        Some((_cost, path)) => {
            if route_is_plannable(g, &path, current_ang) {
                Some(goto_point(graph, start_name, finish_name, current_ang))
            } else {
                None
            }
        },
    }
}


// ----------------------------------------------------------------------------
// Laws.

/// Headings from -360 up are brought into `0..=360` without changing their
/// direction: the result differs from the heading by whole turns.
pub proof fn law_normalized_heading(ang: int)
    requires
        -360 <= ang,
    ensures
        0 <= normalized(ang) <= 360,
        (normalized(ang) - ang) % 360 == 0,
{
    if ang > 360 {
        vstd::arithmetic::div_mod::lemma_fundamental_div_mod(ang, 360);
        vstd::arithmetic::div_mod::lemma_mod_multiples_basic(-(ang / 360), 360);
        assert(normalized(ang) - ang == -(ang / 360) * 360) by (nonlinear_arith)
            requires
                ang == 360 * (ang / 360) + ang % 360,
                normalized(ang) == ang % 360,
        ;
    } else if ang < 0 {
        assert((normalized(ang) - ang) == 360);
    }
}

/// A turn between two headings of `-540..=540` degrees apart is taken the
/// short way: at most half a turn either way, and toward the same heading.
pub proof fn law_short_turn(diff: int)
    requires
        -540 <= diff <= 540,
    ensures
        -180 <= wrapped_turn(diff) <= 180,
        wrapped_turn(diff) == diff || wrapped_turn(diff) == diff - 360 || wrapped_turn(diff) == diff + 360,
{
}

/// The lines of a crossing that point neither where the robot comes from nor
/// where it goes to.
pub open spec fn other_lines(ns: Seq<Neighbour>, from: i32, to: i32) -> Seq<Neighbour> {
    ns.filter(|n: Neighbour| n.angle != from && n.angle != to)
}

proof fn lemma_tally_counts(ns: Seq<Neighbour>, from: i32, to: i32, k: nat)
    requires
        k <= ns.len(),
    ensures
        tally_upto(ns, from, to, k).inside + tally_upto(ns, from, to, k).outside == other_lines(ns.take(k as int), from, to).len(),
    decreases k,
{
    let pred = |n: Neighbour| n.angle != from && n.angle != to;
    if k == 0 {
        assert(ns.take(0) =~= Seq::<Neighbour>::empty());
        assert(Seq::<Neighbour>::empty().filter(pred) =~= Seq::<Neighbour>::empty()) by {
            reveal_with_fuel(Seq::filter, 1);
        }
    } else {
        lemma_tally_counts(ns, from, to, (k - 1) as nat);
        let a = ns.take(k - 1);
        let x = ns[k - 1];
        assert(ns.take(k as int) =~= a + seq![x]);
        Seq::filter_distributes_over_add(a, seq![x], pred);
        assert(seq![x].filter(pred) =~= if pred(x) { seq![x] } else { Seq::empty() }) by {
            reveal_with_fuel(Seq::filter, 2);
            assert(seq![x].drop_last() =~= Seq::<Neighbour>::empty());
        }
    }
}

/// Walking the lines of a crossing counts every line that points neither to
/// the start nor to the finish heading exactly once, inside the turn or
/// outside it.
pub proof fn law_every_other_line_counted_once(ns: Seq<Neighbour>, from: i32, to: i32)
    ensures
        tally_of(ns, from, to).inside >= 0,
        tally_of(ns, from, to).outside >= 0,
        tally_of(ns, from, to).inside + tally_of(ns, from, to).outside == other_lines(ns, from, to).len(),
{
    lemma_tally_nonneg(ns, from, to, ns.len());
    lemma_tally_counts(ns, from, to, ns.len());
    assert(ns.take(ns.len() as int) =~= ns);
}

proof fn lemma_tally_nonneg(ns: Seq<Neighbour>, from: i32, to: i32, k: nat)
    ensures
        tally_upto(ns, from, to, k).inside >= 0,
        tally_upto(ns, from, to, k).outside >= 0,
    decreases k,
{
    if k > 0 {
        lemma_tally_nonneg(ns, from, to, (k - 1) as nat);
    }
}

/// Turning at a crossing rotates at most once: not at all when the headings
/// agree, otherwise across at least one line, to the right when the short way
/// round is to the right.
pub proof fn law_turn_direction(ns: Seq<Neighbour>, from: i32, to: i32)
    requires
        ns.len() < i32::MAX,
    ensures
        wrapped_turn(to - from) == 0 <==> turn_moves(ns, from, to).len() == 0,
        wrapped_turn(to - from) != 0 ==> turn_moves(ns, from, to).len() == 1 && (turn_moves(ns, from, to)[0] matches MoveAction::Rotate(n) && n != 0
            && (n > 0 <==> wrapped_turn(to - from) > 0)),
{
    law_every_other_line_counted_once(ns, from, to);
    assert(other_lines(ns, from, to).len() <= ns.len()) by {
        ns.filter_lemma(|n: Neighbour| n.angle != from && n.angle != to);
    }
}

proof fn lemma_moves_upto_len(nodes: Seq<Point>, path: Seq<usize>, ang: i32, k: nat)
    ensures
        moves_upto(nodes, path, ang, k).len() <= 2 * k,
    decreases k,
{
    if k > 0 {
        lemma_moves_upto_len(nodes, path, ang, (k - 1) as nat);
    }
}

/// A stop window looks for lines strictly between its two headings; when
/// the window wraps through 360 (its start is not below its end) it holds
/// the lines above the start up to 360 and the lines from 0 up to the end.
pub proof fn law_stop_window(ns: Seq<Neighbour>, start: int, finish: int)
    ensures
        start < finish ==> (line_within(ns, start, finish) <==> exists|j: int|
            0 <= j < ns.len() && start < #[trigger] ns[j].angle && ns[j].angle < finish),
        finish <= start ==> (line_within(ns, start, finish) <==> exists|j: int|
            0 <= j < ns.len() && ((0 <= #[trigger] ns[j].angle && ns[j].angle < finish) || (start < ns[j].angle
                && ns[j].angle < 360))),
{
}

/// Arriving at a crossing on a heading from 0 to 360, a line leaving square
/// to the left and one square to the right (headings taken below 360) make
/// the robot stop on the crossing line.
pub proof fn law_lines_on_both_sides_stop_on_cross(ns: Seq<Neighbour>, to: int, i: int, j: int)
    requires
        0 <= to <= 360,
        0 <= i < ns.len(),
        0 <= j < ns.len(),
        ns[i].angle == (to + 270) % 360,
        ns[j].angle == (to + 90) % 360,
    ensures
        stop_moves(ns, to) == seq![MoveAction::LineRide(LineRide::CrossStop)],
{
    let a = ns[i].angle as int;
    let b = ns[j].angle as int;
    assert(line_within(ns, normalized(to - 110), normalized(to - 70))) by {
        if to >= 110 {
            assert(a == to - 90);
        } else if to >= 90 {
            assert(a == to - 90);
        } else if to >= 70 {
            assert(a == to + 270);
        } else {
            assert(a == to + 270);
        }
        assert(ns[i].angle == a);
    }
    assert(line_within(ns, normalized(to + 70), normalized(to + 110))) by {
        if to <= 250 {
            assert(b == to + 90);
            assert(normalized(to + 110) == to + 110);
        } else if to < 270 {
            assert(b == to + 90);
            assert(normalized(to + 110) == to - 250);
        } else if to <= 290 {
            assert(b == to - 270);
            assert(normalized(to + 110) == to - 250);
        } else {
            assert(b == to - 270);
            assert(normalized(to + 70) == to - 290);
            assert(normalized(to + 110) == to - 250);
        }
        assert(ns[j].angle == b);
    }
}

/// A route that stays at its start asks for no move and keeps the heading.
pub proof fn law_route_in_place(nodes: Seq<Point>, start: usize, ang: i32)
    ensures
        route_moves(nodes, seq![start], ang) == (Seq::<MoveAction>::empty(), ang),
{
}

/// A planned route has at most two moves per hop: a rotation and a line ride.
pub proof fn law_two_moves_per_hop(nodes: Seq<Point>, path: Seq<usize>, ang: i32)
    requires
        path.len() >= 1,
    ensures
        route_moves(nodes, path, ang).0.len() <= 2 * (path.len() - 1),
{
    lemma_moves_upto_len(nodes, path, ang, (path.len() - 1) as nat);
}

} // verus!
