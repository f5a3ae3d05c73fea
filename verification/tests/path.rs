use sqlite_instrument::path::{create_trace_db_path, IN_MEMORY, IN_MEMORY_TRACE_DB};
use std::path::Path;

/// The same location by way of the standard library's path type.
fn by_std(main_db_path: &str) -> String {
    let path = Path::new(main_db_path);
    let stem = path.file_stem().unwrap_or_default();
    let trace_filename = format!("{}.trace.db", stem.to_string_lossy());
    if let Some(parent) = path.parent() {
        parent.join(trace_filename).to_string_lossy().to_string()
    } else {
        trace_filename
    }
}

#[test]
fn absolute_path_keeps_its_directory() {
    assert_eq!(create_trace_db_path("/data/app.db"), "/data/app.trace.db");
}

#[test]
fn bare_file_name_stays_relative() {
    assert_eq!(create_trace_db_path("app.db"), "app.trace.db");
}

#[test]
fn in_memory_store_has_a_fixed_fallback() {
    assert_eq!(IN_MEMORY, ":memory:");
    assert_eq!(IN_MEMORY_TRACE_DB, ":memory:.trace.db");
    assert_eq!(create_trace_db_path(":memory:"), ":memory:.trace.db");
}

#[test]
fn only_the_final_extension_is_replaced() {
    assert_eq!(create_trace_db_path("/var/lib/app.v2.sqlite"), "/var/lib/app.v2.trace.db");
    assert_eq!(create_trace_db_path("data/app"), "data/app.trace.db");
    assert_eq!(create_trace_db_path("data/.hidden"), "data/.hidden.trace.db");
    assert_eq!(create_trace_db_path("data/app."), "data/app.trace.db");
}

#[test]
fn paths_without_a_file_name() {
    assert_eq!(create_trace_db_path(""), ".trace.db");
    assert_eq!(create_trace_db_path("/"), ".trace.db");
    assert_eq!(create_trace_db_path("."), ".trace.db");
    assert_eq!(create_trace_db_path(".."), ".trace.db");
    assert_eq!(create_trace_db_path("a/.."), "a/.trace.db");
}

#[test]
fn separators_and_dots_between_components_count_for_nothing() {
    assert_eq!(create_trace_db_path("/app.db"), "/app.trace.db");
    assert_eq!(create_trace_db_path("dir//app.db"), "dir/app.trace.db");
    assert_eq!(create_trace_db_path("dir/./app.db/"), "dir/app.trace.db");
    assert_eq!(create_trace_db_path("./app.db"), "./app.trace.db");
}

#[test]
fn non_ascii_names_are_kept() {
    assert_eq!(create_trace_db_path("/données/café.db"), "/données/café.trace.db");
}

#[test]
fn agrees_with_std_on_small_paths() {
    let alphabet = ['/', '.', 'a', 'b'];
    let mut paths: Vec<String> = vec![String::new()];
    let mut start = 0;
    for _ in 0..7 {
        let end = paths.len();
        for i in start..end {
            for c in alphabet {
                let mut s = paths[i].clone();
                s.push(c);
                paths.push(s);
            }
        }
        start = end;
    }
    for path in &paths {
        assert_eq!(create_trace_db_path(path), by_std(path), "path {:?}", path);
    }
}

#[test]
fn agrees_with_std_on_the_sentinel() {
    assert_eq!(create_trace_db_path(IN_MEMORY), by_std(IN_MEMORY));
}
