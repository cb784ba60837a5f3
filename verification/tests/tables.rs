use gif_server::storage::db::{
    add_favorite, add_hidden, add_tags, insert_statements, remove_favorite, remove_hidden,
    remove_tags, set_tags, InsertOrder, InsertStep, RenditionSpec,
};
use gif_server::storage::sql::{Param, Statement};
use std::collections::BTreeSet;

#[derive(Clone, Debug, Default, PartialEq)]
struct Tables {
    gifs: usize,
    renditions: usize,
    tags: BTreeSet<(String, String)>,
    favorites: Vec<(String, String)>,
    hidden: Vec<(String, String)>,
}

fn pair(s: &Statement) -> (String, String) {
    let text = |i: usize| match s.params.get(i) {
        Some(Param::Text(t)) => t.clone(),
        _ => String::new(),
    };
    (text(0), text(1))
}

fn mark(marks: &mut Vec<(String, String)>, key: (String, String)) {
    if !marks.contains(&key) {
        marks.push(key);
    }
}

/// Runs the statements as one transaction.
fn run(t: &Tables, all: &[Statement]) -> Tables {
    let mut u = t.clone();
    for s in all {
        let p = pair(s);
        let text = s.text.as_str();
        if text.starts_with("INSERT INTO gifs ") {
            u.gifs += 1;
        } else if text.starts_with("INSERT INTO gif_renditions ") {
            u.renditions += 1;
        } else if text == "INSERT INTO tags (gif_id, tag) VALUES ($1, $2)" {
            if !u.tags.insert(p) {
                return t.clone();
            }
        } else if text.starts_with("INSERT INTO tags ") {
            u.tags.insert(p);
        } else if text == "DELETE FROM tags WHERE gif_id = $1" {
            u.tags.retain(|k| k.0 != p.0);
        } else if text.starts_with("DELETE FROM tags ") {
            u.tags.remove(&p);
        } else if text.starts_with("INSERT INTO favorites ") {
            mark(&mut u.favorites, p);
        } else if text.starts_with("DELETE FROM favorites ") {
            u.favorites.retain(|k| *k != p);
        } else if text.starts_with("INSERT INTO hidden ") {
            mark(&mut u.hidden, p);
        } else if text.starts_with("DELETE FROM hidden ") {
            u.hidden.retain(|k| *k != p);
        } else {
            assert!(text.starts_with("SELECT "), "{text}");
        }
    }
    u
}

fn texts(all: &[&str]) -> Vec<String> {
    all.iter().map(|s| s.to_string()).collect()
}

fn tags_of(t: &Tables, id: &str) -> Vec<String> {
    t.tags.iter().filter(|k| k.0 == id).map(|k| k.1.clone()).collect()
}

#[test]
fn set_tags_are_the_tags() {
    let t = run(&Tables::default(), &add_tags("g", &texts(&["old", "kept"])));
    let t = run(&t, &add_tags("other", &texts(&["old"])));
    let u = run(&t, &set_tags("g", &texts(&["new", "kept"])));
    assert_eq!(tags_of(&u, "g"), vec!["kept", "new"]);
    assert_eq!(tags_of(&u, "other"), vec!["old"]);
    assert_eq!(run(&u, &set_tags("g", &texts(&["new", "kept"]))), u);
    assert_eq!(run(&u, &set_tags("g", &texts(&["a", "b", "a"]))), u);
    let v = run(&u, &remove_tags("g", &texts(&["kept", "none"])));
    assert_eq!(tags_of(&v, "g"), vec!["new"]);
    assert_eq!(tags_of(&v, "other"), vec!["old"]);
}

#[test]
fn marks_are_listed_once() {
    let t = run(&Tables::default(), &[add_hidden("@b:x", "g"), add_hidden("@a:x", "f")]);
    let u = run(&t, &[add_hidden("@a:x", "g"), add_hidden("@a:x", "g")]);
    let listed = |t: &Tables, who: &str| -> Vec<String> {
        t.hidden.iter().rev().filter(|k| k.0 == who).map(|k| k.1.clone()).collect()
    };
    assert_eq!(listed(&u, "@a:x"), vec!["g", "f"]);
    assert_eq!(listed(&u, "@b:x"), vec!["g"]);
    let v = run(&u, &[remove_hidden("@a:x", "g")]);
    assert_eq!(listed(&v, "@a:x"), vec!["f"]);
    assert_eq!(listed(&v, "@b:x"), vec!["g"]);
    let w = run(&v, &[add_favorite("@a:x", "g"), add_favorite("@a:x", "g")]);
    assert_eq!(w.favorites.len(), 1);
    assert_eq!(run(&w, &[remove_favorite("@a:x", "g")]), v);
}

#[test]
fn uploads_are_written_whole() {
    let spec = |rendition: &'static str| RenditionSpec {
        rendition,
        filename: "f".to_string(),
        width: 1,
        height: 1,
        size_bytes: 7,
    };
    let order = InsertOrder {
        id: "i".to_string(),
        filename: "f.gif".to_string(),
        hash: "h".to_string(),
        uploader_id: "@u:x".to_string(),
        visibility: "shared".to_string(),
        is_nsfw: false,
        frame_count: 1,
        duration_ms: 10,
        renditions: vec![spec("original"), spec("preview"), spec("thumbnail")],
        tags: texts(&["a", "b", "a"]),
        global_max: 100,
        per_user_max: 100,
    };
    let t = Tables::default();
    for step in [InsertStep::Lookup, InsertStep::SumAll, InsertStep::SumUploader] {
        assert_eq!(run(&t, &insert_statements(&order, &step)), t);
    }
    let u = run(&t, &insert_statements(&order, &InsertStep::Write));
    assert_eq!((u.gifs, u.renditions), (1, 3));
    assert_eq!(tags_of(&u, "i"), vec!["a", "b"]);
}
