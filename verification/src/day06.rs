//! Orbits: every object but the centre of mass orbits one other object. The
//! orbits are counted, and the way between two objects is measured.

use vstd::prelude::*;
use std::collections::VecDeque;
use fnv::{FnvHashMap, FnvHashSet};
use crate::text::{
    chars_of, first_index_of, lines, lines_of, slice_of, split_once, texts_of, trim, trimmed,
};

verus! {

/// What a map of orbits holds: for the name of an object, the names of the
/// objects that are next to it, in the order in which they were added.
pub uninterp spec fn edges_in(adj_list: FnvHashMap<Vec<char>, Vec<Vec<char>>>) -> Map<
    Seq<char>,
    Seq<Seq<char>>,
>;

/// The map that holds nothing.
pub open spec fn no_edges() -> Map<Seq<char>, Seq<Seq<char>>> {
    Map::empty()
}

/// `HashMap::default` with the FNV hasher: a map that holds nothing.
#[verifier::external_body]
fn adj_new() -> (adj_list: FnvHashMap<Vec<char>, Vec<Vec<char>>>)
    ensures
        edges_in(adj_list) == no_edges(),
{
    FnvHashMap::default()
}

/// `HashMap::get` with the FNV hasher: the list that the map holds under the
/// name, if it holds one.
#[verifier::external_body]
fn adj_get<'a>(adj_list: &'a FnvHashMap<Vec<char>, Vec<Vec<char>>>, name: &[char]) -> (found:
    Option<&'a Vec<Vec<char>>>)
    ensures
        match found {
            Some(list) => edges_in(*adj_list).contains_key(name@) && texts_of(list@) == edges_in(
                *adj_list,
            )[name@],
            None => !edges_in(*adj_list).contains_key(name@),
        },
{
    adj_list.get(name)
}

/// `HashMap::get_mut` with the FNV hasher: the list that the map holds under
/// the name, to be changed, if it holds one. What the list is changed to is
/// what the map holds under the name afterwards; nothing else changes.
#[verifier::external_body]
fn adj_get_mut<'a>(adj_list: &'a mut FnvHashMap<Vec<char>, Vec<Vec<char>>>, name: &[char]) -> (found:
    Option<&'a mut Vec<Vec<char>>>)
    ensures
        match found {
            Some(list) => {
                &&& edges_in(*old(adj_list)).contains_key(name@)
                &&& texts_of(list@) == edges_in(*old(adj_list))[name@]
                &&& edges_in(*final(adj_list)) == edges_in(*old(adj_list)).insert(
                    name@,
                    texts_of(final(list)@),
                )
            },
            None => !edges_in(*old(adj_list)).contains_key(name@) && edges_in(*final(adj_list))
                == edges_in(*old(adj_list)),
        },
{
    adj_list.get_mut(name)
}

/// `HashMap::insert` with the FNV hasher: the map holds the list under the
/// name afterwards, besides what it held under other names.
#[verifier::external_body]
fn adj_insert(
    adj_list: &mut FnvHashMap<Vec<char>, Vec<Vec<char>>>,
    name: Vec<char>,
    list: Vec<Vec<char>>,
)
    ensures
        edges_in(*final(adj_list)) == edges_in(*old(adj_list)).insert(name@, texts_of(list@)),
{
    adj_list.insert(name, list);
}

/// The objects and what is next to each of them.
#[derive(Debug, Clone, Default)]
pub struct Graph {
    adj_list: FnvHashMap<Vec<char>, Vec<Vec<char>>>,
}

impl View for Graph {
    type V = Map<Seq<char>, Seq<Seq<char>>>;

    closed spec fn view(&self) -> Map<Seq<char>, Seq<Seq<char>>> {
        edges_in(self.adj_list)
    }
}

/// The map after `after` was put next to `before`: at the end of the list
/// of `before`, unless it is in that list already.
pub open spec fn with_edge(
    edges: Map<Seq<char>, Seq<Seq<char>>>,
    before: Seq<char>,
    after: Seq<char>,
) -> Map<Seq<char>, Seq<Seq<char>>> {
    if edges.contains_key(before) {
        if edges[before].contains(after) {
            edges
        } else {
            edges.insert(before, edges[before].push(after))
        }
    } else {
        edges.insert(before, seq![after])
    }
}

/// A copy of a name.
fn copy_name(name: &[char]) -> (copy: Vec<char>)
    ensures
        copy@ == name@,
{
    let copy = slice_of(name, 0, name.len());
    copy
}

/// Whether two names are the same.
fn same_name(a: &[char], b: &[char]) -> (same: bool)
    ensures
        same == (a@ == b@),
{
    if a.len() != b.len() {
        return false;
    }
    let mut i: usize = 0;
    while i < a.len()
        invariant
            i <= a@.len(),
            a@.len() == b@.len(),
            forall|k: int| 0 <= k < i ==> a@[k] == b@[k],
        decreases a@.len() - i,
    {
        if a[i] != b[i] {
            return false;
        }
        i += 1;
    }
    assert(a@ =~= b@);
    true
}

/// Whether a list of names holds a name.
fn holds_name(list: &Vec<Vec<char>>, name: &[char]) -> (held: bool)
    ensures
        held == texts_of(list@).contains(name@),
{
    let mut i: usize = 0;
    while i < list.len()
        invariant
            i <= list@.len(),
            forall|k: int| 0 <= k < i ==> texts_of(list@)[k] != name@,
        decreases list@.len() - i,
    {
        if same_name(list[i].as_slice(), name) {
            assert(texts_of(list@)[i as int] == name@);
            return true;
        }
        i += 1;
    }
    false
}

impl Graph {
    /// A graph without objects.
    pub fn new() -> (graph: Self)
        ensures
            graph@ == no_edges(),
    {
        Graph { adj_list: adj_new() }
    }

    /// Puts `after` next to `before`.
    pub fn add_edge(&mut self, before: &[char], after: &[char])
        ensures
            final(self)@ == with_edge(old(self)@, before@, after@),
    {
        match adj_get_mut(&mut self.adj_list, before) {
            Some(list) => {
                let ghost known = texts_of(list@);
                if !holds_name(list, after) {
                    list.push(copy_name(after));
                    assert(texts_of(list@) =~= known.push(after@));
                }
            },
            None => {
                let mut list: Vec<Vec<char>> = Vec::new();
                list.push(copy_name(after));
                assert(texts_of(list@) =~= seq![after@]);
                adj_insert(&mut self.adj_list, copy_name(before), list);
            },
        }
    }
}

/// Why the orbits give no answer.
#[derive(Debug, Clone, Copy, PartialEq, Eq, Structural)]
pub enum OrbitError {
    /// A line of the map holds no `)`.
    NoParen,
    /// A number is no `u64`.
    Overflow,
    /// More objects were visited, one after the other, than [`VISIT_LIMIT`].
    OutOfSteps,
    /// There is no way between the two objects.
    NoPath,
    /// An object on the way has nothing next to it.
    UnknownObject,
    /// The two objects are less than two steps apart.
    TooClose,
}

/// The most objects that are visited, one after the other.
pub const VISIT_LIMIT: u64 = u64::MAX;

/// The map that the lines of a text make: every line names an object, `)`,
/// and an object that orbits it, with white space round each name. The
/// second is put next to the first, and where `both_ways`, the first next to
/// the second too. The first line without `)` decides the error.
pub open spec fn orbits_of(rows: Seq<Seq<char>>, both_ways: bool) -> Result<
    Map<Seq<char>, Seq<Seq<char>>>,
    OrbitError,
>
    decreases rows.len(),
{
    if rows.len() == 0 {
        Ok(no_edges())
    } else {
        match orbits_of(rows.drop_last(), both_ways) {
            Err(error) => Err(error),
            Ok(edges) => {
                let line = rows.last();
                if !line.contains(')') {
                    Err(OrbitError::NoParen)
                } else {
                    let paren = first_index_of(line, ')');
                    let before = trimmed(line.subrange(0, paren));
                    let after = trimmed(line.subrange(paren + 1, line.len() as int));
                    let one_way = with_edge(edges, before, after);
                    if both_ways {
                        Ok(with_edge(one_way, after, before))
                    } else {
                        Ok(one_way)
                    }
                }
            },
        }
    }
}

/// Where the first lines fail, the whole text fails in the same way.
proof fn lemma_orbits_of_fails_on(rows: Seq<Seq<char>>, n: int, both_ways: bool)
    requires
        0 <= n <= rows.len(),
    ensures
        orbits_of(rows.take(n), both_ways) matches Err(error) ==> orbits_of(rows, both_ways)
            == Err::<Map<Seq<char>, Seq<Seq<char>>>, OrbitError>(error),
    decreases rows.len() - n,
{
    if n == rows.len() {
        assert(rows.take(n) =~= rows);
    } else {
        lemma_orbits_of_fails_on(rows.drop_last(), n, both_ways);
        assert(rows.drop_last().take(n) =~= rows.take(n));
    }
}

/// Reads a map of orbits.
fn parse_orbits(input: &str, both_ways: bool) -> (r: Result<Graph, OrbitError>)
    ensures
        match orbits_of(lines_of(input@), both_ways) {
            Ok(edges) => r matches Ok(graph) && graph@ == edges,
            Err(error) => r matches Err(e) && e == error,
        },
{
    let mut graph = Graph::new();
    let text = chars_of(input);
    let rows = lines(text.as_slice());
    let ghost all = texts_of(rows@);
    let mut i: usize = 0;
    while i < rows.len()
        invariant
            i <= rows@.len(),
            all == texts_of(rows@),
            all == lines_of(input@),
            orbits_of(all.take(i as int), both_ways) == Ok::<
                Map<Seq<char>, Seq<Seq<char>>>,
                OrbitError,
            >(graph@),
        decreases rows@.len() - i,
    {
        assert(all.take(i + 1).drop_last() =~= all.take(i as int));
        proof {
            lemma_orbits_of_fails_on(all, i + 1, both_ways);
        }
        let (before, after) = match split_once(rows[i].as_slice(), ')') {
            Some(parts) => parts,
            None => {
                return Err(OrbitError::NoParen);
            },
        };
        let before = trim(before.as_slice());
        let after = trim(after.as_slice());
        graph.add_edge(before.as_slice(), after.as_slice());
        if both_ways {
            graph.add_edge(after.as_slice(), before.as_slice());
        }
        i += 1;
    }
    assert(all.take(all.len() as int) =~= all);
    Ok(graph)
}

/// Reads a map of orbits in which every object leads to the objects that
/// orbit it, from lines such as `COM)B`.
pub fn parse_part1(input: &str) -> (r: Result<Graph, OrbitError>)
    ensures
        match orbits_of(lines_of(input@), false) {
            Ok(edges) => r matches Ok(graph) && graph@ == edges,
            Err(error) => r matches Err(e) && e == error,
        },
{
    parse_orbits(input, false)
}

/// Reads a map of orbits in which every object leads to the objects that
/// orbit it and to the object that it orbits.
pub fn parse_part2(input: &str) -> (r: Result<Graph, OrbitError>)
    ensures
        match orbits_of(lines_of(input@), true) {
            Ok(edges) => r matches Ok(graph) && graph@ == edges,
            Err(error) => r matches Err(e) && e == error,
        },
{
    parse_orbits(input, true)
}

/// The name of the centre of mass.
pub open spec fn com_name() -> Seq<char> {
    seq!['C', 'O', 'M']
}

/// The names in a queue of objects to visit, each with its depth.
pub open spec fn waiting(queue: Seq<(Vec<char>, u64)>) -> Seq<(Seq<char>, nat)> {
    Seq::new(queue.len(), |i: int| (queue[i].0@, queue[i].1 as nat))
}

/// The objects of a list, each at the given depth.
pub open spec fn at_depth(names: Seq<Seq<char>>, depth: nat) -> Seq<(Seq<char>, nat)> {
    Seq::new(names.len(), |i: int| (names[i], depth))
}

/// The depths of all objects together that are reached from the objects of
/// the queue, each object counting once for every way that leads to it. The
/// objects are visited in the order of the queue, and what is next to an
/// object is visited after all that waited before, one level deeper.
pub open spec fn depth_total(
    edges: Map<Seq<char>, Seq<Seq<char>>>,
    queue: Seq<(Seq<char>, nat)>,
    count: nat,
    steps: nat,
) -> Result<nat, OrbitError>
    decreases steps,
{
    if queue.len() == 0 {
        Ok(count)
    } else if steps == 0 {
        Err(OrbitError::OutOfSteps)
    } else if count + queue[0].1 > u64::MAX {
        Err(OrbitError::Overflow)
    } else if !edges.contains_key(queue[0].0) {
        depth_total(edges, queue.drop_first(), count + queue[0].1, (steps - 1) as nat)
    } else if queue[0].1 + 1 > u64::MAX {
        Err(OrbitError::Overflow)
    } else {
        depth_total(
            edges,
            queue.drop_first() + at_depth(edges[queue[0].0], queue[0].1 + 1),
            count + queue[0].1,
            (steps - 1) as nat,
        )
    }
}

/// What a result says in the terms of the model.
pub open spec fn outcome(r: Result<u64, OrbitError>) -> Result<nat, OrbitError> {
    match r {
        Ok(n) => Ok(n as nat),
        Err(error) => Err(error),
    }
}

/// `HashSet::default` with the FNV hasher: a set that holds nothing.
#[verifier::external_body]
fn names_new() -> (names: FnvHashSet<Vec<char>>)
    ensures
        names_in(names) == no_names(),
{
    FnvHashSet::default()
}

/// `HashSet::insert` with the FNV hasher: the set holds the name afterwards,
/// besides what it held. Returns whether the name is new.
#[verifier::external_body]
fn names_insert(names: &mut FnvHashSet<Vec<char>>, name: Vec<char>) -> (inserted: bool)
    ensures
        names_in(*final(names)) == names_in(*old(names)).insert(name@),
        inserted == !names_in(*old(names)).contains(name@),
{
    names.insert(name)
}

/// The names that a set holds.
pub uninterp spec fn names_in(names: FnvHashSet<Vec<char>>) -> Set<Seq<char>>;

/// The set that holds no name.
pub open spec fn no_names() -> Set<Seq<char>> {
    Set::empty()
}

/// The queue and the visited objects after the objects of a list were
/// looked at, one after the other: each that was not visited before is
/// visited now, and waits at the end of the queue.
pub open spec fn looked_at(
    names: Seq<Seq<char>>,
    depth: nat,
    queue: Seq<(Seq<char>, nat)>,
    visited: Set<Seq<char>>,
) -> (Seq<(Seq<char>, nat)>, Set<Seq<char>>)
    decreases names.len(),
{
    if names.len() == 0 {
        (queue, visited)
    } else {
        let (before, seen) = looked_at(names.drop_last(), depth, queue, visited);
        if seen.contains(names.last()) {
            (before, seen)
        } else {
            (before.push((names.last(), depth)), seen.insert(names.last()))
        }
    }
}

/// The number of steps to `end` from the objects of the queue, by the
/// shortest way: the objects are visited in the order of the queue, each
/// once, and what is next to an object waits one step further.
pub open spec fn steps_to(
    edges: Map<Seq<char>, Seq<Seq<char>>>,
    queue: Seq<(Seq<char>, nat)>,
    visited: Set<Seq<char>>,
    end: Seq<char>,
    steps: nat,
) -> Result<nat, OrbitError>
    decreases steps,
{
    if queue.len() == 0 {
        Err(OrbitError::NoPath)
    } else if steps == 0 {
        Err(OrbitError::OutOfSteps)
    } else if queue[0].0 == end {
        Ok(queue[0].1)
    } else if !edges.contains_key(queue[0].0) {
        Err(OrbitError::UnknownObject)
    } else if queue[0].1 + 1 > u64::MAX {
        Err(OrbitError::Overflow)
    } else {
        let (next, seen) = looked_at(
            edges[queue[0].0],
            queue[0].1 + 1,
            queue.drop_first(),
            visited,
        );
        steps_to(edges, next, seen, end, (steps - 1) as nat)
    }
}

impl Graph {
    /// The number of orbits, direct and indirect: the depths of all objects
    /// together that are reached from the centre of mass, `COM`.
    pub fn calculate_part1(&self) -> (r: Result<u64, OrbitError>)
        ensures
            outcome(r) == depth_total(self@, seq![(com_name(), 0nat)], 0, VISIT_LIMIT as nat),
    {
        let mut queue: VecDeque<(Vec<char>, u64)> = VecDeque::new();
        let mut com: Vec<char> = Vec::new();
        com.push('C');
        com.push('O');
        com.push('M');
        assert(com@ =~= com_name());
        queue.push_back((com, 0));
        assert(waiting(queue@) =~= seq![(com_name(), 0nat)]);
        let mut count: u64 = 0;
        let ghost whole = depth_total(self@, seq![(com_name(), 0nat)], 0, VISIT_LIMIT as nat);
        let mut steps: u64 = VISIT_LIMIT;
        loop
            invariant
                depth_total(self@, waiting(queue@), count as nat, steps as nat) == whole,
                whole == depth_total(self@, seq![(com_name(), 0nat)], 0, VISIT_LIMIT as nat),
            decreases steps,
        {
            let ghost before = waiting(queue@);
            let (key, depth) = match queue.pop_front() {
                Some(item) => item,
                None => {
                    return Ok(count);
                },
            };
            assert(waiting(queue@) =~= before.drop_first());
            if steps == 0 {
                return Err(OrbitError::OutOfSteps);
            }
            steps -= 1;
            count = match count.checked_add(depth) {
                Some(count) => count,
                None => {
                    return Err(OrbitError::Overflow);
                },
            };

            if let Some(adj) = adj_get(&self.adj_list, key.as_slice()) {
                let deeper = match depth.checked_add(1) {
                    Some(deeper) => deeper,
                    None => {
                        return Err(OrbitError::Overflow);
                    },
                };
                let ghost rest = waiting(queue@);
                let ghost names = texts_of(adj@);
                let mut i: usize = 0;
                while i < adj.len()
                    invariant
                        i <= adj@.len(),
                        names == texts_of(adj@),
                        waiting(queue@) == rest + at_depth(names.take(i as int), deeper as nat),
                    decreases adj@.len() - i,
                {
                    let ghost known = waiting(queue@);
                    queue.push_back((copy_name(adj[i].as_slice()), deeper));
                    assert(waiting(queue@) =~= known.push((names[i as int], deeper as nat)));
                    i += 1;
                }
                assert(names.take(names.len() as int) =~= names);
            }
        }
    }

    /// The number of steps from `start` to `end` by the shortest way.
    pub fn calculate_distance_between(&self, start: &[char], end: &[char]) -> (r: Result<
        u64,
        OrbitError,
    >)
        ensures
            outcome(r) == steps_to(
                self@,
                seq![(start@, 0nat)],
                no_names().insert(start@),
                end@,
                VISIT_LIMIT as nat,
            ),
    {
        let mut queue: VecDeque<(Vec<char>, u64)> = VecDeque::new();
        queue.push_back((copy_name(start), 0));
        assert(waiting(queue@) =~= seq![(start@, 0nat)]);
        let mut visited = names_new();
        names_insert(&mut visited, copy_name(start));
        let ghost whole = steps_to(
            self@,
            seq![(start@, 0nat)],
            no_names().insert(start@),
            end@,
            VISIT_LIMIT as nat,
        );
        let mut steps: u64 = VISIT_LIMIT;
        loop
            invariant
                steps_to(self@, waiting(queue@), names_in(visited), end@, steps as nat) == whole,
                whole == steps_to(
                    self@,
                    seq![(start@, 0nat)],
                    no_names().insert(start@),
                    end@,
                    VISIT_LIMIT as nat,
                ),
            decreases steps,
        {
            let ghost before = waiting(queue@);
            let (key, depth) = match queue.pop_front() {
                Some(item) => item,
                None => {
                    return Err(OrbitError::NoPath);
                },
            };
            assert(waiting(queue@) =~= before.drop_first());
            if steps == 0 {
                return Err(OrbitError::OutOfSteps);
            }
            steps -= 1;
            if same_name(key.as_slice(), end) {
                return Ok(depth);
            }
            let adj = match adj_get(&self.adj_list, key.as_slice()) {
                Some(adj) => adj,
                None => {
                    return Err(OrbitError::UnknownObject);
                },
            };
            let deeper = match depth.checked_add(1) {
                Some(deeper) => deeper,
                None => {
                    return Err(OrbitError::Overflow);
                },
            };
            let ghost rest = waiting(queue@);
            let ghost seen = names_in(visited);
            let ghost names = texts_of(adj@);
            let mut i: usize = 0;
            while i < adj.len()
                invariant
                    i <= adj@.len(),
                    names == texts_of(adj@),
                    (waiting(queue@), names_in(visited)) == looked_at(
                        names.take(i as int),
                        deeper as nat,
                        rest,
                        seen,
                    ),
                decreases adj@.len() - i,
            {
                assert(names.take(i + 1).drop_last() =~= names.take(i as int));
                if names_insert(&mut visited, copy_name(adj[i].as_slice())) {
                    queue.push_back((copy_name(adj[i].as_slice()), deeper));
                }
                i += 1;
            }
            assert(names.take(names.len() as int) =~= names);
        }
    }
}

/// The number of orbits, direct and indirect.
pub fn part1(graph: &Graph) -> (r: Result<u64, OrbitError>)
    ensures
        outcome(r) == depth_total(graph@, seq![(com_name(), 0nat)], 0, VISIT_LIMIT as nat),
{
    graph.calculate_part1()
}

/// The name of the traveller.
pub open spec fn you_name() -> Seq<char> {
    seq!['Y', 'O', 'U']
}

/// The name of the one who is looked for.
pub open spec fn san_name() -> Seq<char> {
    seq!['S', 'A', 'N']
}

/// The number of transfers between the object that `YOU` orbits and the
/// object that `SAN` orbits: two less than the steps from the one to the
/// other.
pub open spec fn transfers(edges: Map<Seq<char>, Seq<Seq<char>>>) -> Result<nat, OrbitError> {
    match steps_to(
        edges,
        seq![(you_name(), 0nat)],
        no_names().insert(you_name()),
        san_name(),
        VISIT_LIMIT as nat,
    ) {
        Err(error) => Err(error),
        Ok(steps) => if steps < 2 {
            Err(OrbitError::TooClose)
        } else {
            Ok((steps - 2) as nat)
        },
    }
}

/// The number of transfers between the object that `YOU` orbits and the
/// object that `SAN` orbits.
pub fn part2(graph: &Graph) -> (r: Result<u64, OrbitError>)
    ensures
        outcome(r) == transfers(graph@),
{
    let mut you: Vec<char> = Vec::new();
    you.push('Y');
    you.push('O');
    you.push('U');
    assert(you@ =~= you_name());
    let mut san: Vec<char> = Vec::new();
    san.push('S');
    san.push('A');
    san.push('N');
    assert(san@ =~= san_name());
    let steps = graph.calculate_distance_between(you.as_slice(), san.as_slice())?;
    match steps.checked_sub(2) {
        Some(transfers) => Ok(transfers),
        None => Err(OrbitError::TooClose),
    }
}

} // verus!
