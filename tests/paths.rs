use neo::path::{
    ancestors, explicit_remote_path, remote_path_for, split_segments, to_root_relative_path,
    PathError,
};

fn strings(v: &[&str]) -> Vec<String> {
    v.iter().map(|s| s.to_string()).collect()
}

#[test]
fn relative_path_of_nested_file() {
    assert_eq!(
        to_root_relative_path("/home/u/site", "/home/u/site/blog/post.html"),
        Ok("blog/post.html".to_string())
    );
}

#[test]
fn relative_path_of_root_itself_is_empty() {
    assert_eq!(to_root_relative_path("/home/u/site", "/home/u/site"), Ok(String::new()));
}

#[test]
fn relative_path_under_file_system_root() {
    assert_eq!(to_root_relative_path("/", "/a/b.html"), Ok("a/b.html".to_string()));
}

#[test]
fn relative_path_ignores_extra_separators() {
    assert_eq!(to_root_relative_path("/a/b/", "/a/b//c/d.html"), Ok("c/d.html".to_string()));
}

#[test]
fn path_outside_root_is_refused() {
    assert_eq!(
        to_root_relative_path("/home/u/site", "/home/u/other/x.html"),
        Err(PathError::NotUnderRoot)
    );
    assert_eq!(to_root_relative_path("/home/u/site", "/home/u"), Err(PathError::NotUnderRoot));
}

#[test]
fn sibling_with_longer_name_is_not_under_root() {
    assert_eq!(
        to_root_relative_path("/home/u/site", "/home/u/sitex/a.html"),
        Err(PathError::NotUnderRoot)
    );
}

#[test]
fn relative_file_is_not_under_absolute_root() {
    assert_eq!(to_root_relative_path("/a", "a/b.html"), Err(PathError::NotUnderRoot));
}

#[test]
fn root_joined_with_relative_path_gives_file_back() {
    let root = "/srv/www/site";
    let file = "/srv/www/site/css/main.css";
    let rel = to_root_relative_path(root, file).unwrap();
    assert_eq!(format!("{}/{}", root, rel), file);
}

#[test]
fn segments_drop_empty_parts() {
    assert_eq!(split_segments("/a//b/"), strings(&["a", "b"]));
    assert_eq!(split_segments(""), Vec::<String>::new());
    assert_eq!(split_segments("/"), Vec::<String>::new());
    assert_eq!(split_segments("x"), strings(&["x"]));
}

#[test]
fn ancestors_of_absolute_directory() {
    assert_eq!(
        ancestors("/home/u/proj/a/b"),
        strings(&["/home/u/proj/a/b", "/home/u/proj/a", "/home/u/proj", "/home/u", "/home", "/"])
    );
    assert_eq!(ancestors("/"), strings(&["/"]));
}

#[test]
fn ancestors_of_relative_directory() {
    assert_eq!(ancestors("a/b"), strings(&["a/b", "a", ""]));
}

#[test]
fn remote_marker_is_stripped() {
    assert_eq!(explicit_remote_path(":x/y.html"), Some("x/y.html".to_string()));
    assert_eq!(explicit_remote_path(":"), Some(String::new()));
    assert_eq!(explicit_remote_path("x/y.html"), None);
    assert_eq!(explicit_remote_path(""), None);
}

#[test]
fn remote_path_without_root_is_path_as_given() {
    assert_eq!(remote_path_for(None, "dir/a.html"), Ok("dir/a.html".to_string()));
}

#[test]
fn remote_path_with_root_is_relative() {
    assert_eq!(remote_path_for(Some("/p"), "/p/dir/a.html"), Ok("dir/a.html".to_string()));
    assert_eq!(remote_path_for(Some("/p"), "/q/a.html"), Err(PathError::NotUnderRoot));
}

#[test]
fn dot_segments_are_refused() {
    assert_eq!(to_root_relative_path("/a", "/a/../b"), Err(PathError::NotUnderRoot));
    assert_eq!(to_root_relative_path("/a", "/a/./b"), Err(PathError::NotUnderRoot));
    assert_eq!(to_root_relative_path("/a/..", "/a/../b"), Err(PathError::NotUnderRoot));
    assert_eq!(to_root_relative_path("/a", "/a/.b/..c"), Ok(".b/..c".to_string()));
}
