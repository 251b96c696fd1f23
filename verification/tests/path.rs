use lieweb::path::split_path;
use lieweb::pattern::Pattern;

fn parts(path: &str) -> Vec<String> {
    split_path(path.as_bytes())
        .into_iter()
        .map(|part| String::from_utf8(part).unwrap())
        .collect()
}

#[test]
fn path_is_cut_at_every_slash() {
    assert_eq!(parts("/posts/42/edit"), vec!["posts", "42", "edit"]);
    assert_eq!(parts("posts/42"), vec!["posts", "42"]);
    assert_eq!(parts("/a"), vec!["a"]);
}

#[test]
fn root_and_empty_path_have_no_segment() {
    assert!(parts("/").is_empty());
    assert!(parts("").is_empty());
}

#[test]
fn empty_segments_are_kept() {
    assert_eq!(parts("/posts/"), vec!["posts", ""]);
    assert_eq!(parts("/posts//edit"), vec!["posts", "", "edit"]);
    assert_eq!(parts("//"), vec!["", ""]);
    assert_eq!(parts("//a"), vec!["", "a"]);
}

#[test]
fn pattern_matches_segment_by_segment() {
    let pattern = Pattern::parse("/users/:user/posts/:post").unwrap();
    assert_eq!(pattern.len(), 4);
    let params = pattern.capture(&split_path(b"/users/ann/posts/7")).unwrap();
    assert_eq!(params.len(), 2);
    assert_eq!(params.name_at(0), Some(&b"user"[..]));
    assert_eq!(params.value_at(0), Some(&b"ann"[..]));
    assert_eq!(params.name_at(1), Some(&b"post"[..]));
    assert_eq!(params.value_at(1), Some(&b"7"[..]));
    assert_eq!(params.name_at(2), None);
    assert!(pattern.capture(&split_path(b"/users/ann/posts")).is_none());
    assert!(pattern.capture(&split_path(b"/users/ann/posts/7/x")).is_none());
    assert!(pattern.capture(&split_path(b"/users/ann/post/7")).is_none());
}

#[test]
fn repeated_name_finds_the_first_binding() {
    let pattern = Pattern::parse("/:x/:x").unwrap();
    let params = pattern.capture(&split_path(b"/1/2")).unwrap();
    assert_eq!(params.len(), 2);
    assert_eq!(params.find("x"), Some(&b"1"[..]));
}

#[test]
fn wildcard_binds_nothing() {
    let pattern = Pattern::parse("/static/*").unwrap();
    let params = pattern.capture(&split_path(b"/static/css/site.css")).unwrap();
    assert!(params.is_empty());
    assert!(pattern.capture(&split_path(b"/static")).is_some());
    assert!(pattern.capture(&split_path(b"/")).is_none());
    let all = Pattern::parse("/*").unwrap();
    assert!(all.capture(&split_path(b"/")).is_some());
    assert!(all.capture(&split_path(b"/a/b")).is_some());
}

#[test]
fn star_inside_a_segment_is_literal() {
    let pattern = Pattern::parse("/a*/b").unwrap();
    assert!(pattern.capture(&split_path(b"/a*/b")).is_some());
    assert!(pattern.capture(&split_path(b"/ax/b")).is_none());
}

#[test]
fn patterns_are_compared_by_their_segments() {
    let first = Pattern::parse("/posts/:id").unwrap();
    assert!(first.same_as(&Pattern::parse("posts/:id").unwrap()));
    assert!(!first.same_as(&Pattern::parse("/posts/:name").unwrap()));
    assert!(!first.same_as(&Pattern::parse("/posts/id").unwrap()));
    assert!(!first.same_as(&Pattern::parse("/posts").unwrap()));
}
