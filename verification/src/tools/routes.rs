//! The table of routes that a service shows when it starts.

use crate::tools::lines::{
    find_char, index_of, line_views, lines, number, parse_number, split_lines, strip_tail, trim,
    trimmed, without_tail,
};
use crate::text::{
    chars_of, comes_before, contains_chars, has_infix, lemma_precedes_total,
    lemma_precedes_transitive, padded_center, padded_end, precedes,
    push_padded_center, push_padded_end, push_run, run, same_text, text_of, texts, trimmed_end,
    trimmed_end_len,
};
use vstd::prelude::*;
use vstd::relations::sorted_by;
use vstd::seq_lib::{lemma_sorted_unique, to_multiset_build, to_multiset_insert};
use vstd::string::{StrSliceExecFns, StringExecFns};

verus! {

/// One route: its path and the methods it answers to.
#[derive(Debug, Clone, PartialEq, Eq, Hash, Default)]
pub struct RouteInfo {
    pub path: String,
    pub method: String,
}

/// A route by the characters of its path and its methods.
pub struct Route {
    pub path: Seq<char>,
    pub method: Seq<char>,
}

impl View for RouteInfo {
    type V = Route;

    open spec fn view(&self) -> Route {
        Route { path: self.path@, method: self.method@ }
    }
}

/// The routes of a list by their characters.
pub open spec fn views(list: Seq<RouteInfo>) -> Seq<Route> {
    list.map_values(|r: RouteInfo| r@)
}

/// What stands for the methods of a service that is nested under a path.
pub open spec fn nested() -> Seq<char> {
    "ROUTE"@
}

/// Whether a route is shown. A nested service is, by the path that takes
/// all that lies below it, and not by the two paths that lead to it.
pub open spec fn shown(route: Route) -> bool {
    route.method != nested() || (route.path.len() > 0 && route.path.last() == '*')
}

/// The routes among `routes` that are shown, in their order.
pub open spec fn kept(routes: Seq<Route>) -> Seq<Route>
    decreases routes.len(),
{
    if routes.len() == 0 {
        Seq::empty()
    } else if shown(routes.last()) {
        kept(routes.drop_last()).push(routes.last())
    } else {
        kept(routes.drop_last())
    }
}

/// The length of the longest path among `routes`.
pub open spec fn path_width(routes: Seq<Route>) -> nat
    decreases routes.len(),
{
    if routes.len() == 0 {
        0
    } else if routes.last().path.len() > path_width(routes.drop_last()) {
        routes.last().path.len()
    } else {
        path_width(routes.drop_last())
    }
}

/// The length of the longest method among `routes`, and no less than that
/// of the heading.
pub open spec fn method_width(routes: Seq<Route>) -> nat
    decreases routes.len(),
{
    if routes.len() == 0 {
        6
    } else if routes.last().method.len() > method_width(routes.drop_last()) {
        routes.last().method.len()
    } else {
        method_width(routes.drop_last())
    }
}

/// The order of routes in the table: by path, and by method where paths
/// are the same.
pub open spec fn order() -> spec_fn(Route, Route) -> bool {
    |a: Route, b: Route|
        if a.path == b.path {
            precedes(a.method, b.method)
        } else {
            precedes(a.path, b.path)
        }
}

/// A horizontal line of the table, between the given corners.
pub open spec fn rule(left: char, mid: char, right: char, paths: nat, methods: nat) -> Seq<char> {
    seq![left] + run('─', paths + 2) + seq![mid] + run('─', methods + 2) + seq![right]
}

/// A route as it is found in the description of a router, with the number
/// that it goes by there.
#[derive(Debug, Clone, PartialEq, Eq, Default)]
pub struct Found {
    pub id: i32,
    pub info: RouteInfo,
}

/// A found route by its number and its characters.
pub struct Entry {
    pub id: int,
    pub route: Route,
}

impl View for Found {
    type V = Entry;

    open spec fn view(&self) -> Entry {
        Entry { id: self.id as int, route: self.info@ }
    }
}

/// The found routes of a list by their numbers and characters.
pub open spec fn entries(list: Seq<Found>) -> Seq<Entry> {
    list.map_values(|f: Found| f@)
}

/// The routes of a list of entries.
pub open spec fn routes_of(list: Seq<Entry>) -> Seq<Route> {
    list.map_values(|e: Entry| e.route)
}

/// Where a reading of the description stands: the routes found so far,
/// and which of them the lines at hand belong to, if any.
pub struct Scan {
    pub found: Seq<Entry>,
    pub current: Option<int>,
}

/// What a line holds that ends the lines of a route.
pub open spec fn mark_id() -> Seq<char> {
    "RouteId("@
}

/// What a line holds that tells of a nested service.
pub open spec fn mark_nested() -> Seq<char> {
    "Route("@
}

/// What a line holds that tells of the methods of a route.
pub open spec fn mark_methods() -> Seq<char> {
    "allow_header:"@
}

/// What a line holds that tells of a route for every method.
pub open spec fn mark_any() -> Seq<char> {
    "Skip"@
}

/// What the first line holds that is read no more.
pub open spec fn mark_end() -> Seq<char> {
    "fallback_router"@
}

/// What a path ends in that takes all below a nested service.
pub open spec fn tail_param() -> Seq<char> {
    "__private__axum_nest_tail_param"@
}

/// What stands for every method.
pub open spec fn every_method() -> Seq<char> {
    "ALL"@
}

/// `k` is the first place among `found` that holds the number `id`.
pub open spec fn holds_id(found: Seq<Entry>, id: int, k: int) -> bool {
    &&& 0 <= k < found.len()
    &&& found[k].id == id
    &&& forall|j: int| 0 <= j < k ==> found[j].id != id
}

/// The reading once the route of the number `id` is at hand: the one
/// found before under that number, or a new and empty one at the end.
pub open spec fn opened(found: Seq<Entry>, id: int) -> Scan {
    if exists|k: int| holds_id(found, id, k) {
        Scan { found, current: Some(choose|k: int| holds_id(found, id, k)) }
    } else {
        Scan {
            found: found.push(
                Entry { id, route: Route { path: Seq::empty(), method: Seq::empty() } },
            ),
            current: Some(found.len() as int),
        }
    }
}

/// `found` with the methods of the route at `k` set.
pub open spec fn with_method(found: Seq<Entry>, k: int, method: Seq<char>) -> Seq<Entry> {
    found.update(k, Entry { id: found[k].id, route: Route { path: found[k].route.path, method } })
}

/// `found` with the path of the route at `k` set.
pub open spec fn with_path(found: Seq<Entry>, k: int, path: Seq<char>) -> Seq<Entry> {
    found.update(k, Entry { id: found[k].id, route: Route { path, method: found[k].route.method } })
}

/// What one line makes of a reading, and whether the line behind it was
/// used up with it.
///
/// With no route at hand, a line that is a number, but for blanks and
/// commas around it, puts the route of that number at hand. With a route
/// at hand, a line may end its lines, tell of a nested service, tell of its
/// methods, or hold its path in quotation marks. The methods are every
/// method, or they stand on the next line. The path is what stands between
/// the first quotation mark and the last two characters of the line.
pub open spec fn step(scan: Scan, line: Seq<char>, next: Option<Seq<char>>) -> (Scan, bool) {
    match scan.current {
        None => match number(trimmed(line, false)) {
            Some(id) => (opened(scan.found, id), false),
            None => (scan, false),
        },
        Some(k) => {
            let route = scan.found[k].route;
            if has_infix(line, mark_id()) {
                (Scan { found: scan.found, current: None }, false)
            } else if has_infix(line, mark_nested()) {
                (Scan { found: with_method(scan.found, k, nested()), current: Some(k) }, false)
            } else if has_infix(line, mark_methods()) {
                match index_of(line, ':') {
                    Some(at) if has_infix(line.skip(at), mark_any()) => (
                        Scan {
                            found: with_method(scan.found, k, route.method + every_method()),
                            current: Some(k),
                        },
                        false,
                    ),
                    _ => match next {
                        Some(methods) => (
                            Scan {
                                found: with_method(
                                    scan.found,
                                    k,
                                    route.method + trimmed(methods, true),
                                ),
                                current: Some(k),
                            },
                            true,
                        ),
                        None => (scan, false),
                    },
                }
            } else {
                match index_of(line, '"') {
                    Some(at) if at + 3 <= line.len() => (
                        Scan {
                            found: with_path(
                                scan.found,
                                k,
                                without_tail(line.subrange(at + 1, line.len() - 2), tail_param()),
                            ),
                            current: Some(k),
                        },
                        false,
                    ),
                    _ => (scan, false),
                }
            }
        },
    }
}

/// The routes found once the lines from `from` on are read, one after the
/// other, into the reading `scan`.
pub open spec fn scanned(lines: Seq<Seq<char>>, from: int, scan: Scan) -> Seq<Entry>
    decreases lines.len() - from,
{
    if from < 0 || from >= lines.len() {
        scan.found
    } else {
        let next = if from + 1 < lines.len() {
            Some(lines[from + 1])
        } else {
            None
        };
        let after = step(scan, lines[from], next);
        scanned(
            lines,
            if after.1 {
                from + 2
            } else {
                from + 1
            },
            after.0,
        )
    }
}

/// `end` is the first line among `lines` that is read no more, or their
/// number.
pub open spec fn ends_at(lines: Seq<Seq<char>>, end: int) -> bool {
    &&& 0 <= end <= lines.len()
    &&& forall|k: int| 0 <= k < end ==> !has_infix(#[trigger] lines[k], mark_end())
    &&& end == lines.len() || has_infix(lines[end], mark_end())
}

/// The lines that are read: those before the first that tells of what
/// answers where no route does.
pub open spec fn read_lines(lines: Seq<Seq<char>>) -> Seq<Seq<char>> {
    lines.take(choose|end: int| ends_at(lines, end))
}

/// The routes that the description of a router tells of, in the order in
/// which their numbers first occur.
pub open spec fn described(debug: Seq<char>) -> Seq<Entry> {
    scanned(read_lines(lines(debug)), 0, Scan { found: Seq::empty(), current: None })
}

/// A line of the table with two cells.
pub open spec fn row(path: Seq<char>, method: Seq<char>) -> Seq<char> {
    "│ "@ + path + " │ "@ + method + " │"@
}

/// The lines of the table below its heading: for every route a rule and
/// the route, its path and its methods at the left of their columns.
pub open spec fn body(routes: Seq<Route>, paths: nat, methods: nat) -> Seq<Seq<char>>
    decreases routes.len(),
{
    if routes.len() == 0 {
        Seq::empty()
    } else {
        body(routes.drop_last(), paths, methods).push(rule('├', '┼', '┤', paths, methods)).push(
            row(
                padded_end(routes.last().path, paths),
                padded_end(trimmed_end(routes.last().method), methods),
            ),
        )
    }
}

/// The lines of the table of `routes`, with columns of the given widths:
/// the upper edge, the heading in the middle of its columns, the routes,
/// and the lower edge.
pub open spec fn table_text(routes: Seq<Route>, paths: nat, methods: nat) -> Seq<Seq<char>> {
    seq![
        rule('┌', '┬', '┐', paths, methods),
        row(padded_center("Path"@, paths), padded_center("Method"@, methods)),
    ] + body(routes, paths, methods) + seq![rule('└', '┴', '┘', paths, methods)]
}

/// Whether a route is shown.
pub fn is_shown(route: &RouteInfo) -> (yes: bool)
    ensures
        yes == shown(route@),
{
    if !same_text(route.method.as_str(), "ROUTE") {
        return true;
    }
    let path = chars_of(route.path.as_str());
    path.len() > 0 && path[path.len() - 1] == '*'
}

/// Takes the routes that are shown, and says how wide the columns of
/// their table must be.
pub fn select(routes: &Vec<RouteInfo>) -> (out: (Vec<RouteInfo>, usize, usize))
    ensures
        views(out.0@) == kept(views(routes@)),
        out.1 == path_width(kept(views(routes@))),
        out.2 == method_width(kept(views(routes@))),
{
    let ghost all = views(routes@);
    let mut keep: Vec<RouteInfo> = Vec::new();
    let mut paths: usize = 0;
    let mut methods: usize = 6;
    let mut i: usize = 0;
    assert(views(keep@) =~= kept(all.take(0)));
    while i < routes.len()
        invariant
            i <= routes.len(),
            all == views(routes@),
            views(keep@) == kept(all.take(i as int)),
            paths == path_width(views(keep@)),
            methods == method_width(views(keep@)),
        decreases routes.len() - i,
    {
        proof {
            assert(all.take(i + 1).drop_last() =~= all.take(i as int));
            assert(all.take(i + 1).last() == routes@[i as int]@);
        }
        if is_shown(&routes[i]) {
            let route = RouteInfo {
                path: routes[i].path.clone(),
                method: routes[i].method.clone(),
            };
            let p = route.path.as_str().unicode_len();
            let m = route.method.as_str().unicode_len();
            let ghost before = views(keep@);
            keep.push(route);
            proof {
                assert(views(keep@) =~= before.push(route@));
                assert(views(keep@).drop_last() =~= before);
            }
            if p > paths {
                paths = p;
            }
            if m > methods {
                methods = m;
            }
        }
        i += 1;
    }
    assert(all.take(routes.len() as int) =~= all);
    (keep, paths, methods)
}

/// Whether `a` stands before `b` in the table, or may stand there.
pub fn in_order(a: &RouteInfo, b: &RouteInfo) -> (yes: bool)
    ensures
        yes == order()(a@, b@),
{
    if same_text(a.path.as_str(), b.path.as_str()) {
        comes_before(a.method.as_str(), b.method.as_str())
    } else {
        comes_before(a.path.as_str(), b.path.as_str())
    }
}

proof fn lemma_order_transitive(a: Route, b: Route, c: Route)
    requires
        order()(a, b),
        order()(b, c),
    ensures
        order()(a, c),
{
    lemma_precedes_total(a.path, b.path);
    lemma_precedes_total(b.path, c.path);
    lemma_precedes_total(a.path, c.path);
    if a.path == b.path && b.path == c.path {
        lemma_precedes_transitive(a.method, b.method, c.method);
    } else if a.path == b.path {
    } else if b.path == c.path {
    } else {
        lemma_precedes_transitive(a.path, b.path, c.path);
        if a.path == c.path {
            lemma_precedes_total(a.path, b.path);
        }
    }
}

/// The order of the table is a total one.
pub proof fn lemma_order_is_total()
    ensures
        vstd::relations::total_ordering(order()),
{
    assert forall|a: Route| #[trigger] order()(a, a) by {
        lemma_precedes_total(a.method, a.method);
    }
    assert forall|a: Route, b: Route| #[trigger] order()(a, b) && #[trigger] order()(b, a) implies a
        == b by {
        lemma_precedes_total(a.path, b.path);
        lemma_precedes_total(a.method, b.method);
    }
    assert forall|a: Route, b: Route, c: Route| #[trigger]
        order()(a, b) && #[trigger] order()(b, c) implies order()(a, c) by {
        lemma_order_transitive(a, b, c);
    }
    assert forall|a: Route, b: Route| #[trigger] order()(a, b) || #[trigger] order()(b, a) by {
        lemma_precedes_total(a.path, b.path);
        lemma_precedes_total(a.method, b.method);
    }
}

/// The routes of `routes` in the order of the table.
pub fn sort(routes: Vec<RouteInfo>) -> (sorted: Vec<RouteInfo>)
    ensures
        sorted_by(views(sorted@), order()),
        views(sorted@).to_multiset() == views(routes@).to_multiset(),
        views(sorted@) == views(routes@).sort_by(order()),
{
    let mut rest = routes;
    let mut sorted: Vec<RouteInfo> = Vec::new();
    proof {
        assert(views(sorted@) + views(rest@) =~= views(routes@));
    }
    while rest.len() > 0
        invariant
            sorted_by(views(sorted@), order()),
            (views(sorted@) + views(rest@)).to_multiset() == views(routes@).to_multiset(),
        decreases rest.len(),
    {
        let ghost had = views(rest@);
        let route = rest.pop().unwrap();
        let mut at: usize = 0;
        while at < sorted.len() && in_order(&sorted[at], &route)
            invariant
                at <= sorted.len(),
                forall|k: int| 0 <= k < at ==> order()(#[trigger] views(sorted@)[k], route@),
            decreases sorted.len() - at,
        {
            at += 1;
        }
        let ghost before = views(sorted@);
        sorted.insert(at, route);
        proof {
            let now = views(sorted@);
            assert(now =~= before.insert(at as int, route@));
            assert(had =~= views(rest@).push(route@));
            to_multiset_insert(before, at as int, route@);
            to_multiset_build(before + views(rest@), route@);
            assert((before + views(rest@)).push(route@) =~= before + had);
            vstd::seq_lib::lemma_multiset_commutative(now, views(rest@));
            vstd::seq_lib::lemma_multiset_commutative(before, views(rest@));
            assert forall|p: int, q: int| 0 <= p < q < now.len() implies #[trigger] order()(
                now[p],
                now[q],
            ) by {
                if q < at {
                    assert(order()(before[p], before[q]));
                } else if q == at {
                    assert(order()(before[p], route@));
                } else if p < at {
                    assert(order()(before[p], before[q - 1]));
                } else if p == at {
                    assert(!order()(before[at as int], route@));
                    lemma_precedes_total(before[at as int].path, route@.path);
                    lemma_precedes_total(before[at as int].method, route@.method);
                    assert(order()(route@, before[at as int]));
                    if q - 1 > at {
                        assert(order()(before[at as int], before[q - 1]));
                        lemma_order_transitive(route@, before[at as int], before[q - 1]);
                    }
                } else {
                    assert(order()(before[p - 1], before[q - 1]));
                }
            }
        }
    }
    assert(views(sorted@) + views(rest@) =~= views(sorted@));
    proof {
        lemma_order_is_total();
        views(routes@).lemma_sort_by_ensures(order());
        lemma_sorted_unique(views(sorted@), views(routes@).sort_by(order()), order());
    }
    sorted
}

fn push_rule(lines: &mut Vec<String>, left: char, mid: char, right: char, paths: usize, methods: usize)
    ensures
        final(lines)@.len() == old(lines)@.len() + 1,
        texts(final(lines)@) == texts(old(lines)@).push(
            rule(left, mid, right, paths as nat, methods as nat),
        ),
{
    let mut line = String::new();
    line.push(left);
    line.push('─');
    push_run(&mut line, '─', paths);
    line.push('─');
    line.push(mid);
    line.push('─');
    push_run(&mut line, '─', methods);
    line.push('─');
    line.push(right);
    proof {
        assert(run('─', (paths + 2) as nat) =~= seq!['─'] + run('─', paths as nat) + seq!['─']);
        assert(run('─', (methods + 2) as nat) =~= seq!['─'] + run('─', methods as nat) + seq![
            '─',
        ]);
    }
    assert(line@ =~= rule(left, mid, right, paths as nat, methods as nat));
    lines.push(line);
    assert(texts(lines@) =~= texts(old(lines)@).push(
        rule(left, mid, right, paths as nat, methods as nat),
    ));
}

/// Draws the table of `routes`, with columns of the given widths for the
/// paths and the methods.
pub fn table(routes: &Vec<RouteInfo>, paths: usize, methods: usize) -> (lines: Vec<String>)
    ensures
        texts(lines@) == table_text(views(routes@), paths as nat, methods as nat),
{
    let mut lines: Vec<String> = Vec::new();
    assert(texts(lines@) =~= Seq::<Seq<char>>::empty());
    push_rule(&mut lines, '┌', '┬', '┐', paths, methods);
    let mut head = String::from_str("│ ");
    push_padded_center(&mut head, "Path", paths);
    head.append(" │ ");
    push_padded_center(&mut head, "Method", methods);
    head.append(" │");
    assert(head@ =~= row(
        padded_center("Path"@, paths as nat),
        padded_center("Method"@, methods as nat),
    ));
    let ghost edge = texts(lines@);
    lines.push(head);
    let ghost top = seq![
        rule('┌', '┬', '┐', paths as nat, methods as nat),
        row(padded_center("Path"@, paths as nat), padded_center("Method"@, methods as nat)),
    ];
    proof {
        assert(edge =~= seq![rule('┌', '┬', '┐', paths as nat, methods as nat)]);
        assert(texts(lines@) =~= edge.push(head@));
        assert(texts(lines@) =~= top);
        assert(body(views(routes@).take(0), paths as nat, methods as nat) =~= Seq::<
            Seq<char>,
        >::empty());
        assert(top + Seq::<Seq<char>>::empty() =~= top);
    }
    let mut i: usize = 0;
    while i < routes.len()
        invariant
            i <= routes.len(),
            texts(lines@) == top + body(
                views(routes@).take(i as int),
                paths as nat,
                methods as nat,
            ),
        decreases routes.len() - i,
    {
        let ghost so_far = texts(lines@);
        push_rule(&mut lines, '├', '┼', '┤', paths, methods);
        let method = chars_of(routes[i].method.as_str());
        let len = trimmed_end_len(&method);
        let mut cut = method;
        cut.truncate(len);
        let method = text_of(&cut);
        assert(method@ =~= trimmed_end(routes@[i as int]@.method));
        let mut line = String::from_str("│ ");
        push_padded_end(&mut line, routes[i].path.as_str(), paths);
        line.append(" │ ");
        push_padded_end(&mut line, method.as_str(), methods);
        line.append(" │");
        assert(line@ =~= row(
            padded_end(routes@[i as int]@.path, paths as nat),
            padded_end(trimmed_end(routes@[i as int]@.method), methods as nat),
        ));
        lines.push(line);
        proof {
            let next = views(routes@).take(i + 1);
            assert(next.drop_last() =~= views(routes@).take(i as int));
            assert(next.last() == routes@[i as int]@);
            assert(texts(lines@) =~= so_far.push(
                rule('├', '┼', '┤', paths as nat, methods as nat),
            ).push(line@));
            assert(texts(lines@) =~= top + body(next, paths as nat, methods as nat));
        }
        i += 1;
    }
    assert(views(routes@).take(routes.len() as int) =~= views(routes@));
    push_rule(&mut lines, '└', '┴', '┘', paths, methods);
    assert(texts(lines@) =~= table_text(views(routes@), paths as nat, methods as nat));
    lines
}

/// The place of a route at hand, as a number without bounds.
pub open spec fn place(current: Option<usize>) -> Option<int> {
    match current {
        Some(k) => Some(k as int),
        None => None,
    }
}

/// The characters of a line, where there is one.
pub open spec fn line_view(line: Option<&Vec<char>>) -> Option<Seq<char>> {
    match line {
        Some(l) => Some(l@),
        None => None,
    }
}

fn set_method(found: &mut Vec<Found>, k: usize, method: String)
    requires
        k < old(found).len(),
    ensures
        final(found).len() == old(found).len(),
        entries(final(found)@) == with_method(entries(old(found)@), k as int, method@),
{
    let id = found[k].id;
    let path = found[k].info.path.clone();
    found.set(k, Found { id, info: RouteInfo { path, method } });
    assert(entries(found@) =~= with_method(entries(old(found)@), k as int, method@));
}

fn set_path(found: &mut Vec<Found>, k: usize, path: String)
    requires
        k < old(found).len(),
    ensures
        final(found).len() == old(found).len(),
        entries(final(found)@) == with_path(entries(old(found)@), k as int, path@),
{
    let id = found[k].id;
    let method = found[k].info.method.clone();
    found.set(k, Found { id, info: RouteInfo { path, method } });
    assert(entries(found@) =~= with_path(entries(old(found)@), k as int, path@));
}

fn open(found: &mut Vec<Found>, id: i32) -> (k: usize)
    ensures
        k < final(found).len(),
        opened(entries(old(found)@), id as int) == (Scan {
            found: entries(final(found)@),
            current: Some(k as int),
        }),
{
    let ghost before = entries(found@);
    let mut j: usize = 0;
    while j < found.len()
        invariant
            j <= found.len(),
            found@ == old(found)@,
            before == entries(found@),
            forall|i: int| 0 <= i < j ==> (#[trigger] before[i]).id != id,
        decreases found.len() - j,
    {
        if found[j].id == id {
            proof {
                assert(holds_id(before, id as int, j as int));
                let chosen = choose|k: int| holds_id(before, id as int, k);
                assert(chosen == j);
            }
            return j;
        }
        j += 1;
    }
    found.push(Found { id, info: RouteInfo { path: String::new(), method: String::new() } });
    proof {
        assert(!exists|k: int| holds_id(before, id as int, k));
        assert(entries(found@) =~= before.push(
            Entry { id: id as int, route: Route { path: Seq::empty(), method: Seq::empty() } },
        ));
    }
    j
}

fn copy_from(line: &Vec<char>, from: usize, to: usize) -> (part: Vec<char>)
    requires
        from <= to <= line.len(),
    ensures
        part@ == line@.subrange(from as int, to as int),
{
    let mut part: Vec<char> = Vec::new();
    let mut i: usize = from;
    while i < to
        invariant
            from <= i <= to,
            to <= line.len(),
            part@ == line@.subrange(from as int, i as int),
        decreases to - i,
    {
        part.push(line[i]);
        assert(part@ =~= line@.subrange(from as int, i + 1));
        i += 1;
    }
    part
}

fn holds(line: &Vec<char>, mark: &str) -> (yes: bool)
    ensures
        yes == has_infix(line@, mark@),
{
    let mark = chars_of(mark);
    contains_chars(line, &mark)
}

/// Reads one line into the routes found so far and says which route is at
/// hand then, and whether the next line was used up.
fn read_line(
    found: &mut Vec<Found>,
    current: Option<usize>,
    line: &Vec<char>,
    next: Option<&Vec<char>>,
) -> (out: (Option<usize>, bool))
    requires
        current is Some ==> current->0 < old(found).len(),
    ensures
        out.0 is Some ==> out.0->0 < final(found).len(),
        step(
            Scan { found: entries(old(found)@), current: place(current) },
            line@,
            line_view(next),
        ) == (Scan { found: entries(final(found)@), current: place(out.0) }, out.1),
{
    let ghost before = Scan { found: entries(found@), current: place(current) };
    match current {
        None => {
            let part = trim(line, false);
            match parse_number(&part) {
                Some(id) => {
                    let k = open(found, id);
                    (Some(k), false)
                },
                None => (None, false),
            }
        },
        Some(k) => {
            assert(before.found[k as int].route == found@[k as int].info@);
            if holds(line, "RouteId(") {
                (None, false)
            } else if holds(line, "Route(") {
                set_method(found, k, String::from_str("ROUTE"));
                (Some(k), false)
            } else if holds(line, "allow_header:") {
                let any = match find_char(line, ':') {
                    Some(at) => {
                        let rest = copy_from(line, at, line.len());
                        assert(rest@ =~= line@.skip(at as int));
                        holds(&rest, "Skip")
                    },
                    None => false,
                };
                if any {
                    let mut method = found[k].info.method.clone();
                    method.append("ALL");
                    set_method(found, k, method);
                    (Some(k), false)
                } else {
                    match next {
                        Some(methods) => {
                            let part = trim(methods, true);
                            let mut method = found[k].info.method.clone();
                            method.append(text_of(&part).as_str());
                            set_method(found, k, method);
                            (Some(k), true)
                        },
                        None => (Some(k), false),
                    }
                }
            } else {
                match find_char(line, '"') {
                    Some(at) => {
                        if line.len() >= 3 && at <= line.len() - 3 {
                            let part = copy_from(line, at + 1, line.len() - 2);
                            let tail = chars_of("__private__axum_nest_tail_param");
                            let len = strip_tail(&part, &tail);
                            let mut path = part;
                            path.truncate(len);
                            assert(path@ =~= without_tail(
                                line@.subrange(at + 1, line.len() - 2),
                                tail_param(),
                            ));
                            set_path(found, k, text_of(&path));
                            (Some(k), false)
                        } else {
                            (Some(k), false)
                        }
                    },
                    None => (Some(k), false),
                }
            }
        },
    }
}

/// Reads the first `end` of `lines` and gives the routes they tell of, in
/// the order in which their numbers first occur.
pub fn scan(lines: &Vec<Vec<char>>, end: usize) -> (found: Vec<Found>)
    requires
        end <= lines.len(),
    ensures
        entries(found@) == scanned(
            line_views(lines@).take(end as int),
            0,
            Scan { found: Seq::empty(), current: None },
        ),
{
    let ghost all = line_views(lines@).take(end as int);
    let mut found: Vec<Found> = Vec::new();
    let mut current: Option<usize> = None;
    let mut i: usize = 0;
    assert(entries(found@) =~= Seq::<Entry>::empty());
    while i < end
        invariant
            i <= end <= lines.len(),
            all == line_views(lines@).take(end as int),
            current is Some ==> current->0 < found.len(),
            scanned(all, 0, Scan { found: Seq::empty(), current: None }) == scanned(
                all,
                i as int,
                Scan { found: entries(found@), current: place(current) },
            ),
        decreases end - i,
    {
        let next = if i + 1 < end {
            Some(&lines[i + 1])
        } else {
            None
        };
        proof {
            assert(all[i as int] == lines@[i as int]@);
            if i + 1 < end {
                assert(all[i + 1] == lines@[i + 1]@);
            }
        }
        let out = read_line(&mut found, current, &lines[i], next);
        current = out.0;
        if out.1 {
            i += 2;
        } else {
            i += 1;
        }
    }
    found
}

/// The number of lines that are read: those before the first that tells
/// of what answers where no route does.
pub fn count_read(lines: &Vec<Vec<char>>) -> (end: usize)
    ensures
        end <= lines.len(),
        line_views(lines@).take(end as int) == read_lines(line_views(lines@)),
{
    let mut end: usize = 0;
    while end < lines.len() && !holds(&lines[end], "fallback_router")
        invariant
            end <= lines.len(),
            forall|k: int|
                0 <= k < end ==> !has_infix(#[trigger] line_views(lines@)[k], mark_end()),
        decreases lines.len() - end,
    {
        end += 1;
    }
    proof {
        let all = line_views(lines@);
        assert(ends_at(all, end as int));
        let chosen = choose|e: int| ends_at(all, e);
        if chosen < end {
            assert(!has_infix(all[chosen], mark_end()));
        } else if end < chosen {
            assert(!has_infix(all[end as int], mark_end()));
        }
    }
    end
}

/// Whether `lines` are the table for the routes `found`: no line where no
/// route was found, and else the table of the routes that are shown, in
/// its order, with columns as wide as the longest of them needs.
pub open spec fn tabulates(found: Seq<Route>, lines: Seq<Seq<char>>) -> bool {
    if found.len() == 0 {
        lines.len() == 0
    } else {
        lines == table_text(
            kept(found).sort_by(order()),
            path_width(kept(found)),
            method_width(kept(found)),
        )
    }
}

/// The routes of a list of found routes.
pub fn routes(found: &Vec<Found>) -> (list: Vec<RouteInfo>)
    ensures
        views(list@) == routes_of(entries(found@)),
{
    let mut list: Vec<RouteInfo> = Vec::new();
    let mut i: usize = 0;
    while i < found.len()
        invariant
            i <= found.len(),
            views(list@) == routes_of(entries(found@)).take(i as int),
        decreases found.len() - i,
    {
        let ghost before = views(list@);
        let route = RouteInfo {
            path: found[i].info.path.clone(),
            method: found[i].info.method.clone(),
        };
        list.push(route);
        proof {
            let target = routes_of(entries(found@));
            assert(target[i as int] == entries(found@)[i as int].route);
            assert(route@ == found@[i as int].info@);
            assert(views(list@) =~= before.push(route@));
            assert(target.take(i + 1) =~= target.take(i as int).push(target[i as int]));
        }
        i += 1;
    }
    assert(routes_of(entries(found@)).take(found.len() as int) =~= routes_of(entries(found@)));
    list
}

/// Draws the table of the routes that the description of a router tells
/// of. The description is the text that the router gives of itself for
/// inspection, in its long form.
pub fn print_router_info(debug: &str) -> (lines: Vec<String>)
    ensures
        tabulates(routes_of(described(debug@)), texts(lines@)),
{
    let all = split_lines(debug);
    let end = count_read(&all);
    let found = scan(&all, end);
    if found.len() == 0 {
        let none: Vec<String> = Vec::new();
        assert(texts(none@) =~= Seq::<Seq<char>>::empty());
        assert(routes_of(entries(found@)) =~= Seq::<Route>::empty());
        return none;
    }
    let list = routes(&found);
    let picked = select(&list);
    let sorted = sort(picked.0);
    table(&sorted, picked.1, picked.2)
}

} // verus!
