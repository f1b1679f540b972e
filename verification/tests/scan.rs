use authboundry::discovery::model::{RouteCandidate, RouteSource};
use authboundry::discovery::scan::{
    detect_rust_framework, discover_decorator_routes, discover_js_routes, discover_python_routes,
    discover_rust_routes, filesystem_route_path_exec,
};

fn seen(routes: &[RouteCandidate]) -> Vec<(String, String, RouteSource, Option<String>)> {
    routes
        .iter()
        .map(|r| (r.method.clone(), r.path.clone(), r.source, r.capability.clone()))
        .collect()
}

fn route(method: &str, path: &str, source: RouteSource, capability: Option<&str>) -> (String, String, RouteSource, Option<String>) {
    (method.to_string(), path.to_string(), source, capability.map(str::to_string))
}

#[test]
fn javascript_routes_and_their_capabilities_are_read() {
    let source = "app.get('/invoices', require('invoice.read'), handler);\napp.get('relative');\nrouter.post(\"/invoices/:id\", capability(\"invoice.write\"));\n<Route path=\"/dashboard\" />\n<a href=\"//cdn.example.com/x\">\n<a href='/about'>\n";
    assert_eq!(
        seen(&discover_js_routes(source)),
        vec![
            route("GET", "/invoices", RouteSource::Express, Some("invoice.read")),
            route("POST", "/invoices/:id", RouteSource::Express, Some("invoice.write")),
            route("GET", "/dashboard", RouteSource::Client, None),
            route("GET", "/about", RouteSource::Client, None),
        ]
    );
}

#[test]
fn a_capability_is_read_only_up_to_the_end_of_the_statement() {
    let source = "app.get('/a', handler);\nrequire('later.cap');\n";
    assert_eq!(seen(&discover_js_routes(source)), vec![route("GET", "/a", RouteSource::Express, None)]);
    assert!(discover_js_routes("app.get('/unclosed").is_empty());
}

#[test]
fn python_routes_include_module_paths() {
    let source = "@app.get(\"/items\")\nurlpatterns = [path(\"users/<int:id>\", view), re_path(\"^x\", v), path(\"/abs\", v)]\napp.add_route('/health', h)\n";
    assert_eq!(
        seen(&discover_python_routes(source)),
        vec![
            route("GET", "/items", RouteSource::Python, None),
            route("GET", "/users/<int:id>", RouteSource::Python, None),
            route("GET", "/^x", RouteSource::Python, None),
            route("GET", "/abs", RouteSource::Python, None),
            route("GET", "/health", RouteSource::Python, None),
        ]
    );
}

#[test]
fn rust_route_macros_and_builders_are_read() {
    let source = "#[get(\"/users\")]\nasync fn users() {}\nRouter::new().route(\"/health\", get(h));\n#[post(\"nope\")]\n";
    assert_eq!(
        seen(&discover_rust_routes(source)),
        vec![
            route("GET", "/users", RouteSource::Rust, None),
            route("GET", "/health", RouteSource::Rust, None),
        ]
    );
    assert_eq!(detect_rust_framework("[dependencies]\naxum = \"0.7\"\n"), "Axum");
    assert_eq!(detect_rust_framework("[dependencies]\nactix-web = \"4\"\n"), "Actix Web");
    assert_eq!(detect_rust_framework("[dependencies]\nserde = \"1\"\n"), "Rust");
}

#[test]
fn decorator_routes_read_module_paths() {
    let source = "@Get('pages/[id].index')\n@Post(\"/blog/index\")\n";
    assert_eq!(
        seen(&discover_decorator_routes(source)),
        vec![
            route("GET", "/pages/:id/index", RouteSource::Client, None),
            route("POST", "/blog", RouteSource::Client, None),
        ]
    );
}

#[test]
fn module_paths_become_url_paths() {
    let p = |s: &str| filesystem_route_path_exec(&s.chars().collect());
    assert_eq!(p(""), "/");
    assert_eq!(p("index"), "/index");
    assert_eq!(p("/index"), "/");
    assert_eq!(p("blog/[slug]/index"), "/blog/:slug");
    assert_eq!(p("api.users"), "/api/users");
    assert_eq!(p("//a//"), "/a");
}
