use forget_me_not::shader::{
    find_include, has_file_name, name_from_path, resolve_includes, WgslShaderSource,
};

#[test]
fn missing_shader_loads_fallback() {
    let s = WgslShaderSource::load("/work/shaders/does_not_exist.wgsl", None);
    assert!(s.is_fallback());
    assert_eq!(s.name(), "fallback.wgsl");
    assert_eq!(s.name(), WgslShaderSource::fallback().name());
}

#[test]
fn loaded_shader_keeps_name_and_text() {
    let s = WgslShaderSource::load("/work/shaders/raytrace.wgsl", Some("fn main() {}".to_string()));
    assert!(!s.is_fallback());
    assert_eq!(s.name(), "raytrace.wgsl");
    match s {
        WgslShaderSource::File { source, path, .. } => {
            assert_eq!(source, "fn main() {}");
            assert_eq!(path, "/work/shaders/raytrace.wgsl");
        },
        WgslShaderSource::Fallback => panic!("expected a file"),
    }
}

#[test]
fn path_without_file_name_falls_back() {
    assert!(WgslShaderSource::load("shaders/..", Some("x".to_string())).is_fallback());
    assert!(WgslShaderSource::load("/", Some("x".to_string())).is_fallback());
}

#[test]
fn reload_keeps_program_on_failure() {
    let path = "shaders/bloom.wgsl";
    let mut s = WgslShaderSource::load(path, Some("a".to_string()));
    assert!(!s.reload(path, None));
    assert_eq!(s.name(), "bloom.wgsl");
    assert!(!s.is_fallback());
    assert!(!s.reload(path, Some("a".to_string())));
    assert!(s.reload(path, Some("b".to_string())));
    let mut f = WgslShaderSource::fallback();
    assert!(f.reload(path, Some("c".to_string())));
    assert!(!f.is_fallback());
}

#[test]
fn file_names() {
    assert_eq!(name_from_path("assets/shaders/final.wgsl"), "final.wgsl");
    assert_eq!(name_from_path("final.wgsl"), "final.wgsl");
    assert_eq!(name_from_path("a/b/"), "b");
    assert_eq!(name_from_path("a/b/."), "b");
    assert_eq!(name_from_path("./dir/ünï.wgsl"), "ünï.wgsl");
}

#[test]
fn include_is_found_and_spliced() {
    let src = "// header\n#include common.wgsl\nfn main() {}\n";
    let d = find_include(src).expect("directive");
    assert_eq!(d.path, "common.wgsl");
    assert_eq!(&src[d.start..d.end], "#include common.wgsl");
    let out = resolve_includes(src, "fn helper() {}");
    assert_eq!(out, "// header\nfn helper() {}\nfn main() {}\n");
}

#[test]
fn only_first_include_is_resolved() {
    let src = "#include a.wgsl\n#include b.wgsl";
    assert_eq!(resolve_includes(src, "#include a.wgsl"), "#include a.wgsl\n#include b.wgsl");
}

#[test]
fn source_without_include_is_unchanged() {
    assert!(find_include("fn main() {}").is_none());
    assert_eq!(resolve_includes("fn main() {}", "x"), "fn main() {}");
    assert!(find_include("x#include y").is_none());
    assert!(find_include("#include   ").is_none());
    assert_eq!(resolve_includes("é #include\tp.wgsl é", "Z"), "é Z é");
}

#[test]
fn file_name_presence() {
    assert!(has_file_name("assets/textures/cubemaps/sunset"));
    assert!(!has_file_name(""));
    assert!(!has_file_name("."));
    assert!(!has_file_name("a/.."));
    assert!(!has_file_name("//"));
}
