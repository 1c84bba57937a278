use route_analyzer::analysis::{
    analyze_route_source, analyze_routes, has_route_extension, infer_routes_dir, is_collected_file, is_skipped_entry_name,
    RouteAnalysis,
};
use route_analyzer::url_path::{file_path_to_url_path, url_path_from_relative};

#[test]
fn test_file_path_to_url_path() {
    assert_eq!(file_path_to_url_path("/routes/index.ts", "/routes"), "/");
    assert_eq!(file_path_to_url_path("/routes/users.ts", "/routes"), "/users");
    assert_eq!(file_path_to_url_path("/routes/users/index.ts", "/routes"), "/users");
    assert_eq!(file_path_to_url_path("/routes/users/[id].ts", "/routes"), "/users/:id");
    assert_eq!(file_path_to_url_path("/routes/posts/[...slug].ts", "/routes"), "/posts/*slug");
}

#[test]
fn path_outside_root_is_used_whole() {
    assert_eq!(file_path_to_url_path("/other/users.ts", "/routes"), "/other/users");
    assert_eq!(file_path_to_url_path("/routesx/a.ts", "/routes"), "/routesx/a");
}

#[test]
fn static_paths_lose_extension_and_index_only() {
    assert_eq!(url_path_from_relative("users/index.tsx"), "/users");
    assert_eq!(url_path_from_relative("a/b/c.ts"), "/a/b/c");
    assert_eq!(url_path_from_relative("//a//b/"), "/a/b");
    assert_eq!(url_path_from_relative("index/index.ts"), "/");
    assert_eq!(url_path_from_relative("notes.md"), "/notes.md");
}

#[test]
fn dynamic_segments() {
    assert_eq!(url_path_from_relative("[org]/[...rest].tsx"), "/:org/*rest");
    assert_eq!(url_path_from_relative("[]"), "/:");
    assert_eq!(url_path_from_relative("[...]"), "/*");
    assert_eq!(url_path_from_relative("[index]"), "/:index");
}

#[test]
fn converting_twice_changes_nothing() {
    for p in ["users/[id].ts", "posts/[...slug].ts", "index.ts", "a/index/b.tsx", "[x]]/y"] {
        let once = url_path_from_relative(p);
        assert_eq!(url_path_from_relative(&once), once);
    }
}

fn analyze(text: &str) -> RouteAnalysis {
    analyze_route_source("/routes/users.ts", "/routes", Ok(text))
}

#[test]
fn value_export_binds_before_function_export() {
    let a = analyze("export const get = () => {};\nexport function post() {}\n");
    assert_eq!(a.method, "GET");
    assert!(a.has_handler);
    assert_eq!(a.url_path, "/users");
    assert_eq!(a.exports.len(), 2);
    assert_eq!(a.exports[0].name, "get");
    assert_eq!(a.exports[0].kind, "variable");
    assert_eq!(a.exports[0].value_type.as_deref(), Some("handler"));
    assert_eq!(a.exports[1].name, "post");
    assert_eq!(a.exports[1].kind, "function");
    assert!(a.errors.is_empty());
}

#[test]
fn async_function_export_binds_uppercased_method() {
    let a = analyze("export async function Patch(req) { return 1 }");
    assert_eq!(a.method, "PATCH");
    assert!(a.has_handler);
    assert_eq!(a.exports[0].kind, "function");
}

#[test]
fn handler_and_options_exports() {
    let a = analyze("export const options = { tags: [] };\nexport const handler = async () => {};\nexport const helper: number = 1;");
    assert_eq!(a.method, "GET");
    assert!(a.has_handler);
    assert!(a.has_options);
    assert_eq!(a.exports.len(), 3);
    assert_eq!(a.exports[0].value_type.as_deref(), Some("options"));
    assert_eq!(a.exports[1].value_type.as_deref(), Some("handler"));
    assert_eq!(a.exports[2].name, "helper");
    assert_eq!(a.exports[2].value_type, None);
}

#[test]
fn default_export_is_a_get_handler() {
    let a = analyze("const h = () => 1;\nexport default h;\n");
    assert_eq!(a.method, "GET");
    assert!(a.has_handler);
    assert_eq!(a.exports.len(), 1);
    assert_eq!(a.exports[0].name, "default");
    assert_eq!(a.exports[0].kind, "default");
}

#[test]
fn default_export_keeps_earlier_method() {
    let a = analyze("export function DELETE() {}\nexport default {}\n");
    assert_eq!(a.method, "DELETE");
    assert_eq!(a.exports.len(), 2);
}

#[test]
fn named_exports() {
    let a = analyze("function a() {}\nexport { put, a as post, options }\n");
    assert_eq!(a.method, "PUT");
    assert!(a.has_handler);
    assert!(a.has_options);
    assert_eq!(a.exports.len(), 2);
    assert_eq!(a.exports[0].name, "put");
    assert_eq!(a.exports[0].kind, "named");
    assert_eq!(a.exports[1].name, "options");
    assert_eq!(a.exports[1].value_type.as_deref(), Some("options"));
}

#[test]
fn named_export_does_not_take_handler() {
    let a = analyze("export { handler }");
    assert_eq!(a.method, "");
    assert!(!a.has_handler);
    assert!(a.exports.is_empty());
}

#[test]
fn flags_stay_set_through_later_passes() {
    let a = analyze("export const options = {};\nexport function get() {}\nexport default x;\nexport { head }");
    assert!(a.has_options);
    assert!(a.has_handler);
    assert_eq!(a.method, "GET");
    assert_eq!(a.exports.len(), 4);
}

#[test]
fn no_handler_is_not_an_error() {
    let a = analyze("const x = 1;");
    assert_eq!(a.method, "");
    assert!(!a.has_handler);
    assert!(a.errors.is_empty());
    assert!(a.options.is_none());
}

#[test]
fn unreadable_file_records_one_error() {
    let a = analyze_route_source("/routes/a/[id].ts", "/routes", Err("No such file or directory (os error 2)"));
    assert_eq!(a.url_path, "/a/:id");
    assert_eq!(a.method, "");
    assert!(!a.has_handler);
    assert!(a.exports.is_empty());
    assert_eq!(a.errors.len(), 1);
    assert_eq!(a.errors[0].message, "Failed to read file: No such file or directory (os error 2)");
    assert_eq!(a.errors[0].line, None);
}

#[test]
fn batch_is_sorted_and_isolates_faults() {
    let files = vec![
        ("/r/users/[id].ts".to_string(), Ok("export const get = 1".to_string())),
        ("/r/index.ts".to_string(), Ok("export default 1".to_string())),
        ("/r/broken.ts".to_string(), Err("denied".to_string())),
        ("/r/about.tsx".to_string(), Ok("export function post() {}".to_string())),
    ];
    let r = analyze_routes("/r", &files);
    let urls: Vec<&str> = r.iter().map(|a| a.url_path.as_str()).collect();
    assert_eq!(urls, vec!["/", "/about", "/broken", "/users/:id"]);
    for a in &r {
        assert_eq!(a.errors.is_empty(), a.url_path != "/broken");
    }
    assert_eq!(r[1].method, "POST");
}

#[test]
fn batch_keeps_order_of_equal_paths() {
    let files = vec![
        ("/r/b.ts".to_string(), Ok(String::new())),
        ("/r/a/index.ts".to_string(), Ok(String::new())),
        ("/r/a.tsx".to_string(), Ok(String::new())),
    ];
    let r = analyze_routes("/r", &files);
    assert_eq!(r[0].file_path, "/r/a/index.ts");
    assert_eq!(r[1].file_path, "/r/a.tsx");
    assert_eq!(r[2].file_path, "/r/b.ts");
}

#[test]
fn empty_batch() {
    assert!(analyze_routes("/r", &Vec::new()).is_empty());
}

#[test]
fn hidden_and_underscore_entries_are_skipped() {
    assert!(is_skipped_entry_name(".hidden.ts"));
    assert!(is_skipped_entry_name("_middleware.ts"));
    assert!(!is_skipped_entry_name("users.ts"));
    assert!(has_route_extension("users.ts"));
    assert!(has_route_extension("page.tsx"));
    assert!(!has_route_extension("notes.md"));
    assert!(!has_route_extension("users.ts.bak"));
    let dirs = vec!["api".to_string(), "_shared".to_string()];
    assert!(!is_collected_file(&dirs, "users.ts"));
    let dirs = vec!["api".to_string(), "v1".to_string()];
    assert!(is_collected_file(&dirs, "users.ts"));
    assert!(!is_collected_file(&dirs, "_auth.ts"));
    assert!(!is_collected_file(&dirs, "readme.md"));
}

#[test]
fn routes_dir_is_inferred_from_path() {
    assert_eq!(infer_routes_dir("/app/src/routes/users/[id].ts"), "/app/src/routes/");
    assert_eq!(infer_routes_dir("/app/routes-admin/x.ts"), "/app/routes-admin/");
    assert_eq!(infer_routes_dir("/app/api/x.ts"), "/app/api");
    assert_eq!(infer_routes_dir("x.ts"), "");
}

#[test]
fn unrecognised_function_export_has_no_role() {
    let a = analyze("export function helper() {}\n");
    assert_eq!(a.method, "");
    assert!(!a.has_handler);
    assert_eq!(a.exports.len(), 1);
    assert_eq!(a.exports[0].name, "helper");
    assert_eq!(a.exports[0].kind, "function");
    assert_eq!(a.exports[0].value_type, None);
}

#[test]
fn handler_function_export_is_a_get_handler() {
    let a = analyze("export async function handler(req) {}\nexport function util() {}");
    assert_eq!(a.method, "GET");
    assert!(a.has_handler);
    assert_eq!(a.exports[0].value_type.as_deref(), Some("handler"));
    assert_eq!(a.exports[1].value_type, None);
}

#[test]
fn options_export_alone_binds_nothing() {
    let a = analyze("// notes\nexport const options = { summary: 'x' };\nconst y = 2;");
    assert!(a.has_options);
    assert!(!a.has_handler);
    assert_eq!(a.method, "");
    assert_eq!(a.exports.len(), 1);
    assert_eq!(a.exports[0].kind, "variable");
    assert_eq!(a.exports[0].value_type.as_deref(), Some("options"));
}

#[test]
fn listing_order_does_not_change_result_order() {
    let a = ("/r/users/[id].ts".to_string(), Ok::<String, String>("export const get = 1".to_string()));
    let b = ("/r/index.ts".to_string(), Ok::<String, String>(String::new()));
    let c = ("/r/about.tsx".to_string(), Err::<String, String>("denied".to_string()));
    let one = analyze_routes("/r", &vec![a.clone(), b.clone(), c.clone()]);
    let two = analyze_routes("/r", &vec![c, a, b]);
    let p1: Vec<String> = one.iter().map(|r| r.url_path.clone()).collect();
    let p2: Vec<String> = two.iter().map(|r| r.url_path.clone()).collect();
    assert_eq!(p1, vec!["/", "/about", "/users/:id"]);
    assert_eq!(p1, p2);
}
