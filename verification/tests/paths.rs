use std::path::{Path, PathBuf};

use ftp_server::path::{
    get_filename, get_parent, invalid_path, prefix_slash, Component, FilePath,
};

fn path(text: &str) -> FilePath {
    FilePath::from_bytes(text.as_bytes().to_vec())
}

fn text(path: &FilePath) -> String {
    String::from_utf8(path.as_bytes().clone()).unwrap()
}

/// Every text of up to `len` characters over slash, dot and two letters.
fn texts(len: usize) -> Vec<String> {
    let mut all = vec![String::new()];
    let mut last = vec![String::new()];
    for _ in 0..len {
        let mut next = vec![];
        for text in &last {
            for letter in ['/', '.', 'a', 'b'] {
                let mut longer = text.clone();
                longer.push(letter);
                next.push(longer);
            }
        }
        all.extend(next.clone());
        last = next;
    }
    all
}

fn spell(component: &Component) -> String {
    match component {
        Component::RootDir => "root".to_string(),
        Component::CurDir => "current".to_string(),
        Component::ParentDir => "parent".to_string(),
        Component::Normal(name) => format!("name {}", String::from_utf8(name.clone()).unwrap()),
    }
}

fn spell_std(component: std::path::Component) -> String {
    match component {
        std::path::Component::Prefix(_) => "prefix".to_string(),
        std::path::Component::RootDir => "root".to_string(),
        std::path::Component::CurDir => "current".to_string(),
        std::path::Component::ParentDir => "parent".to_string(),
        std::path::Component::Normal(name) => format!("name {}", name.to_str().unwrap()),
    }
}

#[test]
fn components_are_those_of_the_standard_library() {
    for s in texts(6) {
        let mine: Vec<String> = path(&s).components().iter().map(spell).collect();
        let theirs: Vec<String> = Path::new(&s).components().map(spell_std).collect();
        assert_eq!(mine, theirs, "{}", s);
    }
}

#[test]
fn parents_and_names_are_those_of_the_standard_library() {
    for s in texts(6) {
        let parent = get_parent(path(&s)).map(|parent| text(&parent));
        let expected = Path::new(&s).parent().map(|parent| parent.to_str().unwrap().to_string());
        assert_eq!(parent, expected, "{}", s);
        let name = get_filename(path(&s)).map(|name| text(&name));
        let expected = Path::new(&s).file_name().map(|name| name.to_str().unwrap().to_string());
        assert_eq!(name, expected, "{}", s);
    }
}

#[test]
fn pairs_behave_as_in_the_standard_library() {
    for a in texts(4) {
        for b in texts(4) {
            let (p, q) = (path(&a), path(&b));
            let (x, y) = (Path::new(&a), Path::new(&b));
            assert_eq!(text(&p.join(&q)), x.join(y).to_str().unwrap(), "{} {}", a, b);
            assert_eq!(p.starts_with(&q), x.starts_with(y), "{} {}", a, b);
            let rest = p.strip_prefix(&q).map(|rest| text(&rest));
            let expected = x.strip_prefix(y).ok().map(|rest| rest.to_str().unwrap().to_string());
            assert_eq!(rest, expected, "{} {}", a, b);
        }
    }
}

#[test]
fn roots_are_dropped_as_by_the_standard_library() {
    for s in texts(6) {
        let std_path = Path::new(&s);
        let expected: PathBuf = if std_path.has_root() {
            std_path.iter().skip(1).collect()
        } else {
            std_path.to_path_buf()
        };
        assert_eq!(text(&path(&s).unrooted()), expected.to_str().unwrap(), "{}", s);
    }
}

#[test]
fn invalid_path_finds_parents() {
    assert!(invalid_path(&path("a/../b")));
    assert!(invalid_path(&path("..")));
    assert!(invalid_path(&path("/a/..")));
    assert!(!invalid_path(&path("a/..b")));
    assert!(!invalid_path(&path("a/.../b")));
    assert!(!invalid_path(&path("./a")));
    assert!(!invalid_path(&path("")));
}

#[test]
fn get_parent_gives_the_directory() {
    assert_eq!(get_parent(path("/a/b")).map(|p| text(&p)), Some("/a".to_string()));
    assert_eq!(get_parent(path("/a")).map(|p| text(&p)), Some("/".to_string()));
    assert!(get_parent(path("/")).is_none());
    assert!(get_parent(path("")).is_none());
}

#[test]
fn prefix_slash_makes_a_path_absolute() {
    for (before, after) in [("a/b", "/a/b"), ("/a", "/a"), ("", "/"), ("./a", "/./a")] {
        let mut p = path(before);
        prefix_slash(&mut p);
        assert_eq!(text(&p), after);
    }
}

#[test]
fn the_last_segment_follows_the_last_slash() {
    assert_eq!(path("/srv/file.txt").last_start(), 5);
    assert_eq!(path("/srv/").last_start(), 5);
    assert_eq!(path("file").last_start(), 0);
}

#[test]
fn a_name_below_its_directory_is_the_path() {
    let whole = path("/srv/ftp/new");
    let mut dir = get_parent(whole.clone()).unwrap();
    dir.push(&get_filename(whole).unwrap());
    assert_eq!(text(&dir), "/srv/ftp/new");
}
