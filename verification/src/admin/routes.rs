//! Route registration for every resource of a registry.

use vstd::prelude::*;

use crate::admin::registry::AdminRegistry;
use crate::admin::resource::{admin_route_name, join_prefix_text, AdminResource};
use crate::http::error::HttpError;
use crate::http::method::Method;
use crate::http::routing::{
    duplicate_route_text, has_route, methods_allow, names_unique, route_named, Route, RouteCollection,
};

verus! {

/// Name, path and methods of a route.
pub open spec fn route_triple(r: Route) -> (Seq<char>, Seq<char>, Seq<Method>) {
    (r.name_view(), r.path_view(), r.methods_view())
}

/// Name, path and methods of each route.
pub open spec fn triples(rs: Seq<Route>) -> Seq<(Seq<char>, Seq<char>, Seq<Method>)> {
    rs.map_values(|r: Route| route_triple(r))
}

/// The seven routes of a resource: list, new and show (GET), create (POST on
/// the new path), edit (GET), update (POST on the edit path), delete (POST).
pub open spec fn resource_routes(r: AdminResource) -> Seq<(Seq<char>, Seq<char>, Seq<Method>)> {
    let n = r.name_view();
    let list = r.list_path_view();
    let new = join_prefix_text(list, "new"@);
    let show = join_prefix_text(list, "{id}"@);
    let edit = join_prefix_text(show, "edit"@);
    let delete = join_prefix_text(show, "delete"@);
    seq![
        (admin_route_name(n, "list"@), list, seq![Method::Get]),
        (admin_route_name(n, "new"@), new, seq![Method::Get]),
        (admin_route_name(n, "create"@), new, seq![Method::Post]),
        (admin_route_name(n, "show"@), show, seq![Method::Get]),
        (admin_route_name(n, "edit"@), edit, seq![Method::Get]),
        (admin_route_name(n, "update"@), edit, seq![Method::Post]),
        (admin_route_name(n, "delete"@), delete, seq![Method::Post]),
    ]
}

/// Routes of every resource, in registration order.
pub open spec fn registry_routes(rs: Seq<AdminResource>) -> Seq<(Seq<char>, Seq<char>, Seq<Method>)>
    decreases rs.len(),
{
    if rs.len() == 0 {
        seq![]
    } else {
        registry_routes(rs.drop_last()) + resource_routes(rs.last())
    }
}

/// `n` is the name of an existing route or of one already added.
pub open spec fn name_taken(
    existing: Seq<Route>,
    added: Seq<(Seq<char>, Seq<char>, Seq<Method>)>,
    n: Seq<char>,
) -> bool {
    has_route(existing, n) || exists|j: int| 0 <= j < added.len() && added[j].0 == n
}

/// Index of the first route whose name is taken when the routes are added in
/// order.
pub open spec fn first_clash(
    existing: Seq<Route>,
    new: Seq<(Seq<char>, Seq<char>, Seq<Method>)>,
) -> Option<int>
    decreases new.len(),
{
    if new.len() == 0 {
        None
    } else {
        match first_clash(existing, new.drop_last()) {
            Some(k) => Some(k),
            None => if name_taken(existing, new.drop_last(), new.last().0) {
                Some(new.len() - 1)
            } else {
                None
            },
        }
    }
}

/// The routes of `resource`, in order.
fn plan_resource(resource: &AdminResource) -> (out: Vec<Route>)
    ensures
        triples(out@) == resource_routes(*resource),
{
    let list = resource.list_path();
    let new = resource.new_path();
    let show = resource.show_path();
    let edit = resource.edit_path();
    let delete = resource.delete_path();
    let mut out: Vec<Route> = Vec::new();
    out.push(Route::with_method(resource.list_route_name().as_str(), list.as_str(), Method::Get));
    out.push(Route::with_method(resource.new_route_name().as_str(), new.as_str(), Method::Get));
    out.push(Route::with_method(resource.create_route_name().as_str(), new.as_str(), Method::Post));
    out.push(Route::with_method(resource.show_route_name().as_str(), show.as_str(), Method::Get));
    out.push(Route::with_method(resource.edit_route_name().as_str(), edit.as_str(), Method::Get));
    out.push(Route::with_method(resource.update_route_name().as_str(), edit.as_str(), Method::Post));
    out.push(Route::with_method(resource.delete_route_name().as_str(), delete.as_str(), Method::Post));
    assert(triples(out@) =~= resource_routes(*resource));
    out
}

/// Adds the list, new, create, show, edit, update and delete routes of every
/// resource, in registration order; stops at the first route name already
/// taken, with the collection's 500 error for that name (the routes added
/// before it stay).
pub fn register_admin_routes(collection: &mut RouteCollection, registry: &AdminRegistry) -> (r:
    Result<(), HttpError>)
    ensures
        match first_clash(old(collection)@, registry_routes(registry@)) {
            None => r is Ok && triples(final(collection)@) == triples(old(collection)@)
                + registry_routes(registry@),
            Some(k) => (r matches Err(e) && e.status_view() == 500 && e.message_view()
                == duplicate_route_text(registry_routes(registry@)[k].0)) && triples(
                final(collection)@,
            ) == triples(old(collection)@) + registry_routes(registry@).take(k),
        },
        r is Ok <==> forall|i: int|
            0 <= i < registry_routes(registry@).len() ==> !has_route(
                old(collection)@,
                #[trigger] registry_routes(registry@)[i].0,
            ),
        names_unique(final(collection)@),
        r is Ok ==> forall|i: int|
            0 <= i < registry@.len() ==> crud_routes_in(final(collection)@, #[trigger] registry@[i]),
{
    let resources = registry.resources();
    let ghost rs = registry@;
    proof {
        lemma_register_admin_routes_ok_iff(old(collection)@, rs);
    }
    let mut planned: Vec<Route> = Vec::new();
    let mut i: usize = 0;
    assert(rs.take(0) =~= Seq::<AdminResource>::empty());
    while i < resources.len()
        invariant
            i <= resources.len(),
            resources@ == rs,
            triples(planned@) == registry_routes(rs.take(i as int)),
        decreases resources.len() - i,
    {
        let more = plan_resource(&resources[i]);
        let mut more = more;
        let ghost before = planned@;
        planned.append(&mut more);
        proof {
            assert(rs.take(i as int + 1).drop_last() =~= rs.take(i as int));
            assert(rs.take(i as int + 1).last() == rs[i as int]);
            assert(triples(planned@) =~= triples(before) + resource_routes(rs[i as int]));
        }
        i = i + 1;
    }
    assert(rs.take(resources.len() as int) =~= rs);
    let ghost all = registry_routes(rs);
    let ghost e0 = collection@;
    let ghost mut k: int = 0;
    assert(all.take(0) =~= Seq::<(Seq<char>, Seq<char>, Seq<Method>)>::empty());
    assert(triples(e0) + all.take(0) =~= triples(e0));
    while planned.len() > 0
        invariant
            triples(planned@) == all.skip(k),
            planned@.len() == all.len() - k,
            0 <= k <= all.len(),
            e0 == old(collection)@,
            rs == registry@,
            all == registry_routes(rs),
            triples(collection@) == triples(e0) + all.take(k),
            first_clash(e0, all.take(k)) is None,
            first_clash(e0, all) is None <==> forall|i: int|
                0 <= i < all.len() ==> !has_route(e0, #[trigger] all[i].0),
        decreases planned.len(),
    {
        let ghost c0 = collection@;
        let ghost p0 = planned@;
        let route = planned.remove(0);
        let ghost rv = route;
        proof {
            assert(triples(p0)[0] == all.skip(k)[0]);
            assert(route_triple(route) == all[k]);
            assert(triples(planned@) =~= all.skip(k + 1)) by {
                assert forall|x: int| 0 <= x < planned@.len() implies triples(planned@)[x]
                    == all.skip(k + 1)[x] by {
                    assert(planned@[x] == p0[x + 1]);
                    assert(triples(p0)[x + 1] == all.skip(k)[x + 1]);
                }
            }
            assert(all.take(k + 1).drop_last() =~= all.take(k));
            assert(all.take(k + 1).last() == all[k]);
            let t0 = triples(e0);
            let tk = all.take(k);
            assert(t0.len() == e0.len());
            assert(triples(c0).len() == c0.len());
            assert(triples(c0) == t0 + tk);
            assert(has_route(c0, route.name_view()) == name_taken(e0, tk, all[k].0)) by {
                if has_route(c0, route.name_view()) {
                    let j = choose|j: int| 0 <= j < c0.len() && c0[j].name_view() == route.name_view();
                    assert(triples(c0)[j].0 == route.name_view());
                    if j < e0.len() {
                        assert(t0[j] == triples(c0)[j]);
                        assert(e0[j].name_view() == t0[j].0);
                    } else {
                        assert(tk[j - e0.len()] == triples(c0)[j]);
                        assert(tk[j - e0.len()].0 == all[k].0);
                    }
                }
                if name_taken(e0, tk, all[k].0) {
                    if has_route(e0, all[k].0) {
                        let j = choose|j: int| 0 <= j < e0.len() && e0[j].name_view() == all[k].0;
                        assert(triples(c0)[j] == t0[j]);
                        assert(c0[j].name_view() == triples(c0)[j].0);
                    } else {
                        let j = choose|j: int| 0 <= j < tk.len() && tk[j].0 == all[k].0;
                        assert(triples(c0)[e0.len() + j] == tk[j]);
                        assert(c0[e0.len() + j].name_view() == triples(c0)[e0.len() + j].0);
                    }
                }
            }
        }
        match collection.add(route) {
            Ok(()) => {
                proof {
                    assert(triples(collection@) =~= triples(c0).push(route_triple(rv)));
                    assert(all.take(k + 1) =~= all.take(k).push(all[k]));
                    assert(triples(collection@) =~= triples(e0) + all.take(k + 1));
                    k = k + 1;
                }
            },
            Err(e) => {
                proof {
                    assert(first_clash(e0, all.take(k + 1)) == Some(k));
                    lemma_clash_prefix(e0, all, k + 1);
                    use_type_invariant(&*collection);
                    collection.lemma_wf_names_unique();
                }
                return Err(e);
            },
        }
    }
    assert(k == all.len());
    assert(all.take(k) =~= all);
    proof {
        use_type_invariant(&*collection);
        collection.lemma_wf_names_unique();
        assert forall|i: int| 0 <= i < rs.len() implies crud_routes_in(
            collection@,
            #[trigger] rs[i],
        ) by {
            lemma_registered_route_methods(e0, collection@, rs, i);
        }
    }
    Ok(())
}

/// Under the route name of `action` for `res`, `c` holds a route at `path`
/// that answers GET when `reads` holds and POST otherwise (not both).
pub open spec fn route_at(
    c: Seq<Route>,
    res: AdminResource,
    action: Seq<char>,
    path: Seq<char>,
    reads: bool,
) -> bool {
    let name = admin_route_name(res.name_view(), action);
    &&& has_route(c, name)
    &&& route_named(c, name).path_view() == path
    &&& methods_allow(route_named(c, name).methods_view(), Method::Get) == reads
    &&& methods_allow(route_named(c, name).methods_view(), Method::Post) == !reads
}

/// `c` holds the seven routes of `res`: list, new, show and edit answer GET
/// (and not POST); create, update and delete answer POST (and not GET); each
/// at its path.
pub open spec fn crud_routes_in(c: Seq<Route>, res: AdminResource) -> bool {
    let list = res.list_path_view();
    let show = join_prefix_text(list, "{id}"@);
    &&& route_at(c, res, "list"@, list, true)
    &&& route_at(c, res, "new"@, join_prefix_text(list, "new"@), true)
    &&& route_at(c, res, "create"@, join_prefix_text(list, "new"@), false)
    &&& route_at(c, res, "show"@, show, true)
    &&& route_at(c, res, "edit"@, join_prefix_text(show, "edit"@), true)
    &&& route_at(c, res, "update"@, join_prefix_text(show, "edit"@), false)
    &&& route_at(c, res, "delete"@, join_prefix_text(show, "delete"@), false)
}

/// Route `7 * i + k` of the registry's list is route `k` of resource `i`.
proof fn lemma_registry_entry(rs: Seq<AdminResource>, i: int, k: int)
    requires
        0 <= i < rs.len(),
        0 <= k < 7,
    ensures
        registry_routes(rs).len() == 7 * rs.len(),
        registry_routes(rs)[7 * i + k] == resource_routes(rs[i])[k],
    decreases rs.len(),
{
    let d = rs.drop_last();
    lemma_registry_route_names(rs);
    lemma_registry_route_names(d);
    assert(registry_routes(rs) == registry_routes(d) + resource_routes(rs.last()));
    if i < d.len() {
        lemma_registry_entry(d, i, k);
        assert(d[i] == rs[i]);
    } else {
        assert(rs[i] == rs.last());
    }
}

/// In a list with distinct names, the route named like entry `j` is entry `j`.
proof fn lemma_named_at(c: Seq<Route>, j: int)
    requires
        names_unique(c),
        0 <= j < c.len(),
    ensures
        has_route(c, c[j].name_view()),
        route_named(c, c[j].name_view()) == c[j],
{
    let n = c[j].name_view();
    assert(has_route(c, n));
    let x = choose|x: int| 0 <= x < c.len() && c[x].name_view() == n;
    if x != j {
        if x < j {
            assert(c[x].name_view() != c[j].name_view());
        } else {
            assert(c[j].name_view() != c[x].name_view());
        }
    }
}

/// Route `k` of resource `i`, added after `c0`, stands in `c1` at its place.
proof fn lemma_added_route(c0: Seq<Route>, c1: Seq<Route>, rs: Seq<AdminResource>, i: int, k: int)
    requires
        0 <= i < rs.len(),
        0 <= k < 7,
        names_unique(c1),
        triples(c1) == triples(c0) + registry_routes(rs),
    ensures
        has_route(c1, resource_routes(rs[i])[k].0),
        route_triple(route_named(c1, resource_routes(rs[i])[k].0)) == resource_routes(rs[i])[k],
{
    lemma_registry_entry(rs, i, k);
    let j = c0.len() + 7 * i + k;
    assert(triples(c1).len() == c1.len());
    assert(triples(c0).len() == c0.len());
    assert(triples(c1)[j] == registry_routes(rs)[7 * i + k]);
    assert(triples(c1)[j] == route_triple(c1[j]));
    lemma_named_at(c1, j);
}

/// After the routes of the registry `rs` are added to `c0` (giving `c1`, as
/// [`register_admin_routes`] does when it succeeds), every resource's list,
/// new, show and edit routes answer GET and not POST, and its create, update
/// and delete routes answer POST and not GET, each under its route name and
/// at its path.
pub proof fn lemma_registered_route_methods(
    c0: Seq<Route>,
    c1: Seq<Route>,
    rs: Seq<AdminResource>,
    i: int,
)
    requires
        0 <= i < rs.len(),
        names_unique(c1),
        triples(c1) == triples(c0) + registry_routes(rs),
    ensures
        crud_routes_in(c1, rs[i]),
{
    reveal_strlit("list");
    reveal_strlit("new");
    reveal_strlit("create");
    reveal_strlit("show");
    reveal_strlit("edit");
    reveal_strlit("update");
    reveal_strlit("delete");
    let rr = resource_routes(rs[i]);
    lemma_added_route(c0, c1, rs, i, 0);
    lemma_added_route(c0, c1, rs, i, 1);
    lemma_added_route(c0, c1, rs, i, 2);
    lemma_added_route(c0, c1, rs, i, 3);
    lemma_added_route(c0, c1, rs, i, 4);
    lemma_added_route(c0, c1, rs, i, 5);
    lemma_added_route(c0, c1, rs, i, 6);
    assert(seq![Method::Get].contains(Method::Get));
    assert(!seq![Method::Get].contains(Method::Post)) by {
        assert(seq![Method::Get][0] != Method::Post);
    }
    assert(seq![Method::Post].contains(Method::Post));
    assert(!seq![Method::Post].contains(Method::Get)) by {
        assert(seq![Method::Post][0] != Method::Get);
    }
}

/// Route names of `new` are pairwise distinct.
pub open spec fn distinct_names(new: Seq<(Seq<char>, Seq<char>, Seq<Method>)>) -> bool {
    forall|i: int, j: int| 0 <= i < j < new.len() ==> new[i].0 != new[j].0
}

/// Adding routes with distinct names meets no clash exactly when none of
/// their names is already in the collection (so [`register_admin_routes`]
/// succeeds exactly then, and then adds every route).
pub proof fn lemma_no_clash_iff_names_free(
    existing: Seq<Route>,
    new: Seq<(Seq<char>, Seq<char>, Seq<Method>)>,
)
    requires
        distinct_names(new),
    ensures
        first_clash(existing, new) is None <==> forall|i: int|
            0 <= i < new.len() ==> !has_route(existing, #[trigger] new[i].0),
    decreases new.len(),
{
    if new.len() > 0 {
        let d = new.drop_last();
        assert(distinct_names(d)) by {
            assert forall|i: int, j: int| 0 <= i < j < d.len() implies d[i].0 != d[j].0 by {
                assert(d[i] == new[i]);
                assert(d[j] == new[j]);
            }
        }
        lemma_no_clash_iff_names_free(existing, d);
        assert(!(exists|j: int| 0 <= j < d.len() && d[j].0 == new.last().0)) by {
            if exists|j: int| 0 <= j < d.len() && d[j].0 == new.last().0 {
                let j = choose|j: int| 0 <= j < d.len() && d[j].0 == new.last().0;
                assert(d[j] == new[j]);
                assert(new[new.len() - 1] == new.last());
            }
        }
        if forall|i: int| 0 <= i < new.len() ==> !has_route(existing, #[trigger] new[i].0) {
            assert forall|i: int| 0 <= i < d.len() implies !has_route(existing, #[trigger] d[i].0) by {
                assert(d[i] == new[i]);
            }
            assert(!has_route(existing, new[new.len() - 1].0));
        } else {
            let i = choose|i: int| 0 <= i < new.len() && has_route(existing, #[trigger] new[i].0);
            if i < d.len() {
                assert(d[i] == new[i]);
            } else {
                assert(new[i] == new.last());
            }
        }
    }
}

/// The seven actions of a resource's routes, in route order.
pub open spec fn admin_actions() -> Seq<Seq<char>> {
    seq!["list"@, "new"@, "create"@, "show"@, "edit"@, "update"@, "delete"@]
}

proof fn lemma_route_name_tail(n: Seq<char>, a: Seq<char>, k: int)
    requires
        0 <= k <= a.len(),
    ensures
        ({
            let s = admin_route_name(n, a);
            &&& s.len() == 7 + n.len() + a.len()
            &&& k < a.len() ==> s[s.len() - 1 - k] == a[a.len() - 1 - k]
            &&& k == a.len() ==> s[s.len() - 1 - k] == '_'
        }),
{
    reveal_strlit("admin_");
    reveal_strlit("_");
}

/// Route names of one resource's distinct actions differ, and so do those
/// of resources with different names.
proof fn lemma_route_names_differ(n1: Seq<char>, j1: int, n2: Seq<char>, j2: int)
    requires
        0 <= j1 < 7,
        0 <= j2 < 7,
        j1 != j2 || n1 != n2,
    ensures
        admin_route_name(n1, admin_actions()[j1]) != admin_route_name(n2, admin_actions()[j2]),
{
    reveal_strlit("list");
    reveal_strlit("new");
    reveal_strlit("create");
    reveal_strlit("show");
    reveal_strlit("edit");
    reveal_strlit("update");
    reveal_strlit("delete");
    reveal_strlit("admin_");
    reveal_strlit("_");
    let a1 = admin_actions()[j1];
    let a2 = admin_actions()[j2];
    let s1 = admin_route_name(n1, a1);
    let s2 = admin_route_name(n2, a2);
    if s1 == s2 {
        if j1 == j2 {
            assert(n1 =~= s1.subrange(6, 6 + n1.len() as int));
            assert(n2 =~= s2.subrange(6, 6 + n2.len() as int));
        } else {
            lemma_route_name_tail(n1, a1, 0);
            lemma_route_name_tail(n2, a2, 0);
            lemma_route_name_tail(n1, a1, 1);
            lemma_route_name_tail(n2, a2, 1);
            lemma_route_name_tail(n1, a1, 2);
            lemma_route_name_tail(n2, a2, 2);
            lemma_route_name_tail(n1, a1, 3);
            lemma_route_name_tail(n2, a2, 3);
            assert(false);
        }
    }
}

/// Each route of `rs`'s list is the route of one resource for one action:
/// route `i` is that of resource `i / 7` for action `i % 7`.
proof fn lemma_registry_route_names(rs: Seq<AdminResource>)
    ensures
        registry_routes(rs).len() == 7 * rs.len(),
        forall|i: int|
            0 <= i < registry_routes(rs).len() ==> (#[trigger] registry_routes(rs)[i]).0
                == admin_route_name(rs[i / 7].name_view(), admin_actions()[i % 7]),
    decreases rs.len(),
{
    if rs.len() > 0 {
        let d = rs.drop_last();
        lemma_registry_route_names(d);
        let all = registry_routes(rs);
        let last = resource_routes(rs.last());
        assert(all == registry_routes(d) + last);
        assert forall|i: int| 0 <= i < all.len() implies (#[trigger] all[i]).0 == admin_route_name(
            rs[i / 7].name_view(),
            admin_actions()[i % 7],
        ) by {
            if i < registry_routes(d).len() {
                assert(all[i] == registry_routes(d)[i]);
                assert(d[i / 7] == rs[i / 7]);
            } else {
                let j = i - 7 * d.len();
                assert(all[i] == last[j]);
                assert(i / 7 == d.len() && i % 7 == j);
                assert(rs[rs.len() - 1] == rs.last());
            }
        }
    } else {
        assert(registry_routes(rs) =~= Seq::<(Seq<char>, Seq<char>, Seq<Method>)>::empty());
    }
}

/// Resources with distinct names give routes with distinct names (as the
/// registry keeps its resources).
pub proof fn lemma_registry_route_names_distinct(rs: Seq<AdminResource>)
    requires
        forall|i: int, j: int| 0 <= i < j < rs.len() ==> rs[i].name_view() != rs[j].name_view(),
    ensures
        distinct_names(registry_routes(rs)),
{
    lemma_registry_route_names(rs);
    let all = registry_routes(rs);
    assert forall|x: int, y: int| 0 <= x < y < all.len() implies all[x].0 != all[y].0 by {
        let r1 = x / 7;
        let r2 = y / 7;
        assert(all[x].0 == admin_route_name(rs[r1].name_view(), admin_actions()[x % 7]));
        assert(all[y].0 == admin_route_name(rs[r2].name_view(), admin_actions()[y % 7]));
        assert(0 <= r1 <= r2 < rs.len());
        if r1 != r2 {
            assert(rs[r1].name_view() != rs[r2].name_view());
        } else {
            assert(x % 7 != y % 7);
        }
        lemma_route_names_differ(rs[r1].name_view(), x % 7, rs[r2].name_view(), y % 7);
    }
}

/// For a registry (whose resources have distinct names),
/// [`register_admin_routes`] meets no clash, so succeeds and adds all seven
/// routes of every resource, exactly when none of those route names is
/// already in the collection.
pub proof fn lemma_register_admin_routes_ok_iff(existing: Seq<Route>, rs: Seq<AdminResource>)
    requires
        forall|i: int, j: int| 0 <= i < j < rs.len() ==> rs[i].name_view() != rs[j].name_view(),
    ensures
        first_clash(existing, registry_routes(rs)) is None <==> forall|i: int|
            0 <= i < registry_routes(rs).len() ==> !has_route(
                existing,
                #[trigger] registry_routes(rs)[i].0,
            ),
{
    lemma_registry_route_names_distinct(rs);
    lemma_no_clash_iff_names_free(existing, registry_routes(rs));
}

/// A clash found in a prefix is the first clash of the whole list.
proof fn lemma_clash_prefix(
    existing: Seq<Route>,
    new: Seq<(Seq<char>, Seq<char>, Seq<Method>)>,
    n: int,
)
    requires
        0 <= n <= new.len(),
        first_clash(existing, new.take(n)) is Some,
    ensures
        first_clash(existing, new) == first_clash(existing, new.take(n)),
    decreases new.len() - n,
{
    if n < new.len() {
        assert(new.take(n + 1).drop_last() =~= new.take(n));
        assert(first_clash(existing, new.take(n + 1)) == first_clash(existing, new.take(n)));
        lemma_clash_prefix(existing, new, n + 1);
    } else {
        assert(new.take(n) =~= new);
    }
}

} // verus!
