use serenade::admin::error::AdminError;
use serenade::admin::field::AdminField;
use serenade::admin::html::{render_list_html, render_show_html};
use serenade::admin::registry::AdminRegistry;
use serenade::admin::resource::AdminResource;
use serenade::admin::routes::register_admin_routes;
use serenade::admin::row::AdminRow;
use serenade::http::method::Method;
use serenade::http::routing::{Route, RouteCollection};

#[test]
fn tests_version_is_nonempty() {
    assert_ne!(serenade::version(), "");
}

#[test]
fn registry_rejects_duplicate_names() {
    let mut registry = AdminRegistry::new();
    registry
        .register(AdminResource::new("product", "/admin/products"))
        .expect("first");
    let err = registry
        .register(AdminResource::new("product", "/admin/other"))
        .expect_err("dup");
    assert!(matches!(
        err,
        AdminError::DuplicateResource { ref name } if name == "product"
    ));
    assert_eq!(err.message(), "admin resource `product` is already registered");
    assert!(registry.get("missing").is_none());
    assert_eq!(registry.get("product").expect("get").name(), "product");
    assert_eq!(registry.resources().len(), 1);
}

#[test]
fn resource_paths_and_form_fields() {
    let with_slash = AdminResource::new("product", "/admin/products/")
        .list_fields(vec![AdminField::named("name")])
        .show_fields(vec![AdminField::new("sku", "SKU")])
        .form_fields(vec![AdminField::named("name"), AdminField::named("price")]);
    assert_eq!(with_slash.path_prefix(), "/admin/products/");
    assert_eq!(with_slash.list().len(), 1);
    assert_eq!(with_slash.show().len(), 1);
    assert_eq!(with_slash.form().len(), 2);
    assert_eq!(with_slash.show()[0].name(), "sku");
    assert_eq!(with_slash.list_path(), "/admin/products");
    assert_eq!(with_slash.show_path(), "/admin/products/{id}");
    assert_eq!(with_slash.new_path(), "/admin/products/new");
    assert_eq!(with_slash.edit_path(), "/admin/products/{id}/edit");
    assert_eq!(with_slash.delete_path(), "/admin/products/{id}/delete");
    assert_eq!(with_slash.edit_path_for("9"), "/admin/products/9/edit");
    assert_eq!(with_slash.delete_path_for("9"), "/admin/products/9/delete");
    assert_eq!(with_slash.show_path_for("9"), "/admin/products/9");
    assert_eq!(with_slash.list_route_name(), "admin_product_list");
    assert_eq!(with_slash.show_route_name(), "admin_product_show");
    assert_eq!(with_slash.new_route_name(), "admin_product_new");
    assert_eq!(with_slash.create_route_name(), "admin_product_create");
    assert_eq!(with_slash.edit_route_name(), "admin_product_edit");
    assert_eq!(with_slash.update_route_name(), "admin_product_update");
    assert_eq!(with_slash.delete_route_name(), "admin_product_delete");

    let fallback =
        AdminResource::new("cat", "admin/categories").list_fields(vec![AdminField::named("title")]);
    assert_eq!(fallback.list_path(), "/admin/categories");
    assert_eq!(fallback.show().len(), 1);
    assert_eq!(fallback.form().len(), 1);
    assert_eq!(fallback.show()[0].name(), "title");

    let root = AdminResource::new("root", "/");
    assert_eq!(root.list_path(), "/");
    assert_eq!(root.show_path(), "/{id}");
    assert_eq!(root.new_path(), "/new");
    assert_eq!(root.edit_path_for("1"), "/1/edit");

    let empty_prefix = AdminResource::new("empty", "");
    assert_eq!(empty_prefix.list_path(), "/");
}

#[test]
fn register_routes_crud() {
    let mut registry = AdminRegistry::new();
    registry
        .register(
            AdminResource::new("product", "/admin/products")
                .list_fields(vec![AdminField::named("name"), AdminField::new("price", "Price")]),
        )
        .expect("register");
    let mut collection = RouteCollection::new();
    register_admin_routes(&mut collection, &registry).expect("routes");
    assert_eq!(
        collection.get("admin_product_list").expect("list").path(),
        "/admin/products"
    );
    assert_eq!(
        collection.get("admin_product_new").expect("new").path(),
        "/admin/products/new"
    );
    assert_eq!(
        collection
            .get("admin_product_create")
            .expect("create")
            .path(),
        "/admin/products/new"
    );
    assert_eq!(
        collection.get("admin_product_show").expect("show").path(),
        "/admin/products/{id}"
    );
    assert_eq!(
        collection.get("admin_product_edit").expect("edit").path(),
        "/admin/products/{id}/edit"
    );
    assert_eq!(
        collection
            .get("admin_product_update")
            .expect("update")
            .path(),
        "/admin/products/{id}/edit"
    );
    assert_eq!(
        collection
            .get("admin_product_delete")
            .expect("delete")
            .path(),
        "/admin/products/{id}/delete"
    );
    assert!(collection
        .get("admin_product_create")
        .expect("create")
        .allows(Method::Post));
    assert!(!collection
        .get("admin_product_create")
        .expect("create")
        .allows(Method::Get));
    assert_eq!(collection.len(), 7);

    let empty = AdminRegistry::new();
    register_admin_routes(&mut RouteCollection::new(), &empty).expect("empty ok");
}

#[test]
fn register_routes_propagates_name_collision() {
    let mut registry = AdminRegistry::new();
    registry
        .register(AdminResource::new("product", "/admin/products"))
        .expect("register");
    let mut collection = RouteCollection::new();
    collection
        .add(Route::with_method(
            "admin_product_list",
            "/collision",
            Method::Get,
        ))
        .expect("preexisting");
    let err = register_admin_routes(&mut collection, &registry).expect_err("collision");
    assert!(err.describe().contains("admin_product_list"));
}

#[test]
fn register_routes_propagates_show_name_collision() {
    let mut registry = AdminRegistry::new();
    registry
        .register(AdminResource::new("product", "/admin/products"))
        .expect("register");
    let mut collection = RouteCollection::new();
    collection
        .add(Route::with_method(
            "admin_product_show",
            "/collision-show",
            Method::Get,
        ))
        .expect("preexisting show");
    let err = register_admin_routes(&mut collection, &registry).expect_err("show collision");
    assert!(err.describe().contains("admin_product_show"));
    assert_eq!(collection.len(), 4);
}

#[test]
fn render_list_and_show_escape_html() {
    let resource = AdminResource::new("product", "/admin/products")
        .list_fields(vec![AdminField::named("name"), AdminField::new("price", "Price")]);
    let rows = [AdminRow::new("1")
        .with("name", "<script>")
        .with("price", "10")];
    let list = render_list_html(&resource, &rows);
    assert!(list.contains("&lt;script&gt;"));
    assert!(!list.contains("<script>"));
    assert!(list.contains("/admin/products/1"));
    let show = render_show_html(&resource, &rows[0]);
    assert!(show.contains("&lt;script&gt;"));
    assert!(show.contains("back to list"));
    assert_eq!(rows[0].id(), "1");
    assert_eq!(rows[0].get("missing"), "");
}

#[test]
fn render_list_exact_markup() {
    let resource = AdminResource::new("p", "/").list_fields(vec![AdminField::new("n", "N")]);
    let rows = [AdminRow::new("a&b").with("n", "x")];
    assert_eq!(
        render_list_html(&resource, &rows),
        "<section class=\"serenade-admin-list\">\n<h1>p</h1>\n<table>\n<thead><tr><th>N</th><th></th></tr></thead>\n<tbody>\n<tr><td>x</td><td><a href=\"/a&amp;b\">show</a></td></tr>\n</tbody>\n</table>\n</section>\n"
    );
    assert_eq!(
        render_show_html(&resource, &rows[0]),
        "<section class=\"serenade-admin-show\">\n<h1>p #a&amp;b</h1>\n<dl>\n<dt>N</dt><dd>x</dd>\n</dl>\n<p><a href=\"/\">back to list</a></p>\n</section>\n"
    );
}

#[test]
fn admin_field_accessors() {
    let named = AdminField::named("id");
    assert_eq!(named.name(), "id");
    assert_eq!(named.label(), "id");
    let labeled = AdminField::new("price", "Price");
    assert_eq!(labeled.name(), "price");
    assert_eq!(labeled.label(), "Price");
}

#[test]
fn row_paths_are_the_patterns_with_the_id_filled_in() {
    for prefix in ["/admin/products/", "admin/products", "/", ""] {
        let r = AdminResource::new("product", prefix);
        for id in ["9", "a b", "x/y"] {
            assert_eq!(r.delete_path().replace("{id}", id), r.delete_path_for(id));
            assert_eq!(r.edit_path().replace("{id}", id), r.edit_path_for(id));
            assert_eq!(r.show_path().replace("{id}", id), r.show_path_for(id));
        }
    }
    assert_eq!(
        AdminResource::new("product", "/admin/products/").delete_path_for("9"),
        "/admin/products/9/delete"
    );
}

#[test]
fn registration_fails_exactly_when_a_name_is_taken() {
    let mut registry = AdminRegistry::new();
    registry
        .register(AdminResource::new("post", "/admin/posts"))
        .expect("register");
    let mut free = RouteCollection::new();
    free.add(Route::new("home", "/", Vec::new())).expect("home");
    assert!(register_admin_routes(&mut free, &registry).is_ok());
    let mut taken = RouteCollection::new();
    taken
        .add(Route::new("admin_post_edit", "/elsewhere", Vec::new()))
        .expect("taken");
    assert!(register_admin_routes(&mut taken, &registry).is_err());
}

#[test]
fn bundle_version_is_non_empty() {
    assert_ne!(serenade::version(), "");
}
