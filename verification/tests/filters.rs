use str_enum_case_check::exclude::{is_python_file, merge_excludes, should_exclude_file, should_skip_dir};

#[test]
fn excluded_directory_prunes_every_file_under_it() {
    let excludes = merge_excludes(&vec![String::from("vendor")], &vec![]);
    assert!(should_skip_dir("vendor", &excludes));
    assert!(should_exclude_file("vendor/a.py", &excludes));
    assert!(should_exclude_file("project/vendor/deep/tree/mod.py", &excludes));
    assert!(should_exclude_file("project/vendor/other.py", &excludes));
    assert!(!should_exclude_file("project/vend/other.py", &excludes));
    assert!(!should_exclude_file("project/src/vendored.py", &excludes));
}

#[test]
fn excluded_file_name_matches() {
    let excludes = merge_excludes(&vec![], &vec![String::from("generated.py")]);
    assert!(should_exclude_file("src/generated.py", &excludes));
    assert!(!should_exclude_file("src/handwritten.py", &excludes));
}

#[test]
fn merge_is_a_set_union() {
    let config = vec![String::from("vendor"), String::from("build")];
    let override_list = vec![String::from("vendor"), String::from("extra")];
    let excludes = merge_excludes(&config, &override_list);
    assert!(excludes.contains_name("vendor"));
    assert!(excludes.contains_name("build"));
    assert!(excludes.contains_name("extra"));
    assert!(!excludes.contains_name("dist"));
}

#[test]
fn conventional_directories_are_skipped() {
    let excludes = merge_excludes(&vec![], &vec![]);
    assert!(should_skip_dir(".git", &excludes));
    assert!(should_skip_dir("_private", &excludes));
    assert!(should_skip_dir("frontend", &excludes));
    assert!(should_skip_dir("build", &excludes));
    assert!(should_skip_dir("dist", &excludes));
    assert!(should_skip_dir("venv", &excludes));
    assert!(should_skip_dir("env", &excludes));
    assert!(should_skip_dir("__pycache__", &excludes));
    assert!(should_skip_dir("pkg.egg-info", &excludes));
    assert!(!should_skip_dir("src", &excludes));
}

#[test]
fn python_files_by_extension() {
    assert!(is_python_file("a/b/module.py"));
    assert!(is_python_file("module.py"));
    assert!(!is_python_file("a/b/module.pyc"));
    assert!(!is_python_file("a/b/module.pyi"));
    assert!(!is_python_file("notebook.ipynb"));
    assert!(!is_python_file("a/b/module.py.typed"));
    assert!(!is_python_file("a/b/.py"));
    assert!(!is_python_file("a/b/noext"));
    assert!(!is_python_file("module.txt"));
}
