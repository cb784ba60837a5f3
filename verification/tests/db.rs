use gif_server::models::Gif;
use gif_server::storage::db::{
    add_favorite, add_hidden, add_tags, delete_gif, get_gif, get_gif_by_hash_for_uploader,
    get_renditions, get_tags, increment_uses, insert_gif_quota, insert_statements, list_favorites,
    list_featured, list_featured_random, list_hidden, list_history, list_recent, record_selection,
    remove_favorite, remove_hidden, remove_tags, replace_gif_quota, replace_statements,
    search_by_filename, search_by_tags, selection_statement, set_nsfw, set_tags, set_visibility,
    storage_differs, suggest_tags, total_storage_bytes, InsertEvent, InsertOrder, InsertStep,
    RenditionSpec, ReplaceEvent, ReplaceOrder, ReplaceOutcome, ReplaceStep, SelectionEvent,
    SelectionStep, UploadOutcome, GIF_COLS, G_COLS,
};
use gif_server::storage::sql::{
    browse_filters, hidden_clause, like_prefix, list_filters, visibility_clause, Param, Statement,
};

fn show(p: &Param) -> String {
    match p {
        Param::Text(s) => format!("'{s}'"),
        Param::Texts(v) => format!("{v:?}"),
        Param::Int(n) => format!("{n}"),
        Param::BigInt(n) => format!("{n}L"),
        Param::Bool(b) => format!("{b}"),
    }
}

fn shown(s: &Statement) -> (String, Vec<String>) {
    (s.text.clone(), s.params.iter().map(show).collect())
}

fn is(s: &Statement, text: &str, params: &[&str]) {
    let params: Vec<String> = params.iter().map(|p| p.to_string()).collect();
    assert_eq!(shown(s), (text.to_string(), params));
}

#[test]
fn clauses() {
    assert_eq!(visibility_clause(true, "g", "$4"), "g.uploader_id = $4");
    assert_eq!(
        visibility_clause(false, "g", "$4"),
        "(g.visibility = 'shared' OR g.uploader_id = $4)"
    );
    assert_eq!(list_filters(true, true, "gifs", "$3"), "gifs.uploader_id = $3");
    assert_eq!(
        list_filters(false, false, "gifs", "$3"),
        "(gifs.visibility = 'shared' OR gifs.uploader_id = $3) AND NOT gifs.is_nsfw"
    );
    assert_eq!(hidden_clause(true, "g", "$4"), "");
    assert_eq!(
        hidden_clause(false, "g", "$4"),
        " AND NOT EXISTS (SELECT 1 FROM hidden h WHERE h.gif_id = g.id AND h.mxid = $4)"
    );
    assert_eq!(
        browse_filters(true, false, false, "g", "$4"),
        "g.uploader_id = $4 AND NOT g.is_nsfw AND NOT EXISTS (SELECT 1 FROM hidden h WHERE h.gif_id = g.id AND h.mxid = $4)"
    );
    assert_eq!(like_prefix("c_a%t%"), "cat%");
    assert_eq!(like_prefix(""), "%");
}

#[test]
fn simple_statements() {
    is(&get_gif("i"), &format!("SELECT {GIF_COLS} FROM gifs WHERE id = $1"), &["'i'"]);
    is(
        &get_gif_by_hash_for_uploader("h", "@u:x"),
        &format!("SELECT {GIF_COLS} FROM gifs WHERE uploader_id = $1 AND hash = $2"),
        &["'@u:x'", "'h'"],
    );
    is(
        &set_visibility("i", "private"),
        "UPDATE gifs SET visibility = $1 WHERE id = $2",
        &["'private'", "'i'"],
    );
    is(&set_nsfw("i", true), "UPDATE gifs SET is_nsfw = $1 WHERE id = $2", &["true", "'i'"]);
    is(&delete_gif("i"), "DELETE FROM gifs WHERE id = $1", &["'i'"]);
    is(
        &get_renditions("i"),
        "SELECT gif_id, rendition, filename, width, height, size_bytes FROM gif_renditions WHERE gif_id = $1",
        &["'i'"],
    );
    is(
        &total_storage_bytes(),
        "SELECT COALESCE(SUM(size_bytes), 0)::BIGINT FROM gif_renditions",
        &[],
    );
    is(&get_tags("i"), "SELECT tag FROM tags WHERE gif_id = $1 ORDER BY tag", &["'i'"]);
    is(&increment_uses("i"), "UPDATE gifs SET uses = uses + 1 WHERE id = $1", &["'i'"]);
    is(
        &add_favorite("@u:x", "i"),
        "INSERT INTO favorites (mxid, gif_id) VALUES ($1, $2) ON CONFLICT DO NOTHING",
        &["'@u:x'", "'i'"],
    );
    is(
        &remove_favorite("@u:x", "i"),
        "DELETE FROM favorites WHERE mxid = $1 AND gif_id = $2",
        &["'@u:x'", "'i'"],
    );
    is(
        &add_hidden("@u:x", "i"),
        "INSERT INTO hidden (mxid, gif_id) VALUES ($1, $2) ON CONFLICT DO NOTHING",
        &["'@u:x'", "'i'"],
    );
    is(
        &remove_hidden("@u:x", "i"),
        "DELETE FROM hidden WHERE mxid = $1 AND gif_id = $2",
        &["'@u:x'", "'i'"],
    );
}

#[test]
fn tag_statements() {
    let tags = vec!["a".to_string(), "b".to_string()];
    let r = set_tags("i", &tags);
    assert_eq!(r.len(), 3);
    is(&r[0], "DELETE FROM tags WHERE gif_id = $1", &["'i'"]);
    is(&r[1], "INSERT INTO tags (gif_id, tag) VALUES ($1, $2)", &["'i'", "'a'"]);
    is(&r[2], "INSERT INTO tags (gif_id, tag) VALUES ($1, $2)", &["'i'", "'b'"]);
    let r = add_tags("i", &tags);
    assert_eq!(r.len(), 2);
    is(
        &r[1],
        "INSERT INTO tags (gif_id, tag) VALUES ($1, $2) ON CONFLICT DO NOTHING",
        &["'i'", "'b'"],
    );
    let r = remove_tags("i", &tags);
    assert_eq!(r.len(), 2);
    is(&r[0], "DELETE FROM tags WHERE gif_id = $1 AND tag = $2", &["'i'", "'a'"]);
    assert_eq!(set_tags("i", &Vec::new()).len(), 1);
}

#[test]
fn searches() {
    let vis = "(g.visibility = 'shared' OR g.uploader_id = $4) AND NOT g.is_nsfw AND NOT EXISTS (SELECT 1 FROM hidden h WHERE h.gif_id = g.id AND h.mxid = $4)";
    is(
        &search_by_tags(
            &vec!["ca%t".to_string(), "fun".to_string()],
            "@u:x",
            false,
            false,
            false,
            20,
            40,
        ),
        &format!(
            "SELECT {G_COLS} FROM gifs g JOIN tags t ON t.gif_id = g.id WHERE t.tag LIKE ANY($1) AND {vis} GROUP BY g.id ORDER BY COUNT(t.tag) DESC, g.uses DESC, g.uploaded_at DESC LIMIT $2 OFFSET $3"
        ),
        &["[\"cat%\", \"fun%\"]", "20L", "40L", "'@u:x'"],
    );
    is(
        &search_by_filename("cat fun", "@u:x", true, true, true, 20, 0),
        &format!(
            "SELECT {GIF_COLS} FROM gifs WHERE to_tsvector('english', filename) @@ plainto_tsquery('english', $1) AND gifs.uploader_id = $4 ORDER BY ts_rank(to_tsvector('english', filename), plainto_tsquery('english', $1)) DESC, uses DESC LIMIT $2 OFFSET $3"
        ),
        &["'cat fun'", "20L", "0L", "'@u:x'"],
    );
}

#[test]
fn listings() {
    let head = format!("SELECT {GIF_COLS} FROM gifs WHERE gifs.uploader_id = $3");
    is(
        &list_featured("@u:x", true, true, true, 5, 10),
        &format!("{head} ORDER BY uses DESC, uploaded_at DESC LIMIT $1 OFFSET $2"),
        &["5L", "10L", "'@u:x'"],
    );
    is(
        &list_featured_random("@u:x", true, true, true, 5, 10, -7),
        &format!("{head} ORDER BY md5($4::text || id) LIMIT $1 OFFSET $2"),
        &["5L", "10L", "'@u:x'", "-7L"],
    );
    is(
        &list_recent("@u:x", true, true, true, 5, 10),
        &format!("{head} ORDER BY uploaded_at DESC LIMIT $1 OFFSET $2"),
        &["5L", "10L", "'@u:x'"],
    );
    let filter = "(g.visibility = 'shared' OR g.uploader_id = $3) AND NOT g.is_nsfw";
    is(
        &list_favorites("@u:x", false, 5, 10),
        &format!("SELECT {G_COLS} FROM gifs g JOIN favorites f ON f.gif_id = g.id WHERE f.mxid = $3 AND {filter} ORDER BY f.created_at DESC LIMIT $1 OFFSET $2"),
        &["5L", "10L", "'@u:x'"],
    );
    is(
        &list_hidden("@u:x", false, 5, 10),
        &format!("SELECT {G_COLS} FROM gifs g JOIN hidden hd ON hd.gif_id = g.id WHERE hd.mxid = $3 AND {filter} ORDER BY hd.created_at DESC LIMIT $1 OFFSET $2"),
        &["5L", "10L", "'@u:x'"],
    );
    is(
        &list_history("@u:x", false, 5, 10),
        &format!("SELECT {G_COLS} FROM gifs g JOIN selections s ON s.gif_id = g.id WHERE s.mxid = $3 AND {filter} ORDER BY s.used_at DESC LIMIT $1 OFFSET $2"),
        &["5L", "10L", "'@u:x'"],
    );
}

#[test]
fn suggestions() {
    is(
        &suggest_tags("c_a", false, 10),
        "SELECT t.tag FROM tags t JOIN gifs g ON g.id = t.gif_id WHERE t.tag LIKE $1 AND g.visibility = 'shared' AND NOT g.is_nsfw GROUP BY t.tag ORDER BY COUNT(*) DESC LIMIT $2",
        &["'ca%'", "10L"],
    );
    is(
        &suggest_tags("ca", true, 10),
        "SELECT t.tag FROM tags t JOIN gifs g ON g.id = t.gif_id WHERE t.tag LIKE $1 AND g.visibility = 'shared' GROUP BY t.tag ORDER BY COUNT(*) DESC LIMIT $2",
        &["'ca%'", "10L"],
    );
}

fn gif(id: &str) -> Gif {
    Gif {
        id: id.to_string(),
        filename: "f.gif".to_string(),
        hash: "h".to_string(),
        uploader_id: "@u:x".to_string(),
        visibility: "shared".to_string(),
        is_nsfw: false,
        frame_count: 1,
        duration_ms: 10,
        uses: 0,
        uploaded_at: time::OffsetDateTime::UNIX_EPOCH,
    }
}

fn specs() -> Vec<RenditionSpec> {
    let one = |rendition, size_bytes| RenditionSpec {
        rendition,
        filename: format!("i_{rendition}"),
        width: 4,
        height: 3,
        size_bytes,
    };
    vec![one("original", 60), one("preview", 30), one("thumbnail", 10)]
}

fn insert_order(global_max: u64, per_user_max: u64) -> InsertOrder {
    InsertOrder {
        id: "i".to_string(),
        filename: "f.gif".to_string(),
        hash: "h".to_string(),
        uploader_id: "@u:x".to_string(),
        visibility: "shared".to_string(),
        is_nsfw: false,
        frame_count: 2,
        duration_ms: 200,
        renditions: specs(),
        tags: vec!["cat".to_string()],
        global_max,
        per_user_max,
    }
}

#[test]
fn storing_step_by_step() {
    let order = insert_order(1000, 300);
    let step = insert_gif_quota(&order, InsertStep::Lookup, InsertEvent::Found(None));
    assert!(matches!(step, InsertStep::SumAll));
    let step = insert_gif_quota(&order, step, InsertEvent::GlobalTotal(900));
    assert!(matches!(step, InsertStep::SumUploader));
    let step = insert_gif_quota(&order, step, InsertEvent::UserTotal(200));
    assert!(matches!(step, InsertStep::Write));
    let step = insert_gif_quota(&order, step, InsertEvent::Stored(gif("i")));
    assert!(matches!(step, InsertStep::Finished(UploadOutcome::Inserted(g)) if g.id == "i"));
}

#[test]
fn storing_is_refused() {
    let order = insert_order(1000, 300);
    let step = insert_gif_quota(&order, InsertStep::Lookup, InsertEvent::Found(Some(gif("old"))));
    assert!(matches!(step, InsertStep::Finished(UploadOutcome::Duplicate(g)) if g.id == "old"));
    let step = insert_gif_quota(&order, InsertStep::SumAll, InsertEvent::GlobalTotal(901));
    assert!(matches!(step, InsertStep::Finished(UploadOutcome::QuotaExceeded)));
    let step = insert_gif_quota(&order, InsertStep::SumUploader, InsertEvent::UserTotal(201));
    assert!(matches!(step, InsertStep::Finished(UploadOutcome::QuotaExceeded)));
    // a negative total counts as a huge one
    let step = insert_gif_quota(&order, InsertStep::SumAll, InsertEvent::GlobalTotal(-101));
    assert!(matches!(step, InsertStep::Finished(UploadOutcome::QuotaExceeded)));
    let none = insert_order(u64::MAX, u64::MAX);
    let step = insert_gif_quota(&none, InsertStep::SumAll, InsertEvent::GlobalTotal(i64::MAX - 100));
    assert!(matches!(step, InsertStep::SumUploader));
}

#[test]
fn storing_statements() {
    let order = insert_order(1000, 300);
    let r = insert_statements(&order, &InsertStep::Lookup);
    assert_eq!(r.len(), 2);
    is(&r[0], "SELECT pg_advisory_xact_lock($1)", &["1732855379L"]);
    is(
        &r[1],
        &format!("SELECT {GIF_COLS} FROM gifs WHERE uploader_id = $1 AND hash = $2"),
        &["'@u:x'", "'h'"],
    );
    let r = insert_statements(&order, &InsertStep::SumAll);
    assert_eq!(r.len(), 1);
    is(&r[0], "SELECT COALESCE(SUM(size_bytes), 0)::BIGINT FROM gif_renditions", &[]);
    let r = insert_statements(&order, &InsertStep::SumUploader);
    assert_eq!(r.len(), 1);
    is(
        &r[0],
        "SELECT COALESCE(SUM(r.size_bytes),0)::BIGINT FROM gif_renditions r JOIN gifs g ON g.id = r.gif_id WHERE g.uploader_id = $1",
        &["'@u:x'"],
    );
    let r = insert_statements(&order, &InsertStep::Write);
    assert_eq!(r.len(), 5);
    is(
        &r[0],
        &format!("INSERT INTO gifs (id, filename, hash, uploader_id, visibility, is_nsfw, frame_count, duration_ms) VALUES ($1, $2, $3, $4, $5, $6, $7, $8) RETURNING {GIF_COLS}"),
        &["'i'", "'f.gif'", "'h'", "'@u:x'", "'shared'", "false", "2", "200"],
    );
    is(
        &r[2],
        "INSERT INTO gif_renditions (gif_id, rendition, filename, width, height, size_bytes) VALUES ($1, $2, $3, $4, $5, $6)",
        &["'i'", "'preview'", "'i_preview'", "4", "3", "30"],
    );
    is(
        &r[4],
        "INSERT INTO tags (gif_id, tag) VALUES ($1, $2) ON CONFLICT DO NOTHING",
        &["'i'", "'cat'"],
    );
    let done = InsertStep::Finished(UploadOutcome::QuotaExceeded);
    assert!(insert_statements(&order, &done).is_empty());
}

fn replace_order(global_max: u64, per_user_max: u64) -> ReplaceOrder {
    ReplaceOrder {
        id: "i".to_string(),
        uploader_id: "@u:x".to_string(),
        filename: "n.gif".to_string(),
        hash: "h2".to_string(),
        frame_count: 3,
        duration_ms: 300,
        renditions: specs(),
        global_max,
        per_user_max,
    }
}

#[test]
fn replacing_step_by_step() {
    let order = replace_order(1000, 300);
    let step = replace_gif_quota(&order, ReplaceStep::Lookup, ReplaceEvent::Found(None));
    assert!(matches!(step, ReplaceStep::SumOld));
    let step = replace_gif_quota(&order, step, ReplaceEvent::OldTotal(80));
    assert!(matches!(step, ReplaceStep::SumAll { old_total: 80 }));
    // 980 in use, 80 of it given back, 100 taken
    let step = replace_gif_quota(&order, step, ReplaceEvent::GlobalTotal(980));
    assert!(matches!(step, ReplaceStep::SumUploader { old_total: 80 }));
    let step = replace_gif_quota(&order, step, ReplaceEvent::UserTotal(280));
    assert!(matches!(step, ReplaceStep::Write));
    let step = replace_gif_quota(&order, step, ReplaceEvent::Stored(gif("i")));
    assert!(matches!(step, ReplaceStep::Finished(ReplaceOutcome::Updated(g)) if g.id == "i"));
}

#[test]
fn replacing_is_refused() {
    let order = replace_order(1000, 300);
    let step = replace_gif_quota(&order, ReplaceStep::Lookup, ReplaceEvent::Found(Some(gif("o"))));
    assert!(matches!(step, ReplaceStep::Finished(ReplaceOutcome::Duplicate)));
    let at = ReplaceStep::SumAll { old_total: 80 };
    let step = replace_gif_quota(&order, at, ReplaceEvent::GlobalTotal(981));
    assert!(matches!(step, ReplaceStep::Finished(ReplaceOutcome::QuotaExceeded)));
    let at = ReplaceStep::SumUploader { old_total: 80 };
    let step = replace_gif_quota(&order, at, ReplaceEvent::UserTotal(281));
    assert!(matches!(step, ReplaceStep::Finished(ReplaceOutcome::QuotaExceeded)));
}

#[test]
fn replacing_statements() {
    let order = replace_order(1000, 300);
    let r = replace_statements(&order, &ReplaceStep::Lookup);
    is(
        &r[1],
        &format!("SELECT {GIF_COLS} FROM gifs WHERE uploader_id = $1 AND hash = $2 AND id <> $3"),
        &["'@u:x'", "'h2'", "'i'"],
    );
    let r = replace_statements(&order, &ReplaceStep::SumOld);
    is(
        &r[0],
        "SELECT COALESCE(SUM(size_bytes),0)::BIGINT FROM gif_renditions WHERE gif_id = $1",
        &["'i'"],
    );
    assert_eq!(replace_statements(&order, &ReplaceStep::SumAll { old_total: 1 }).len(), 1);
    let r = replace_statements(&order, &ReplaceStep::SumUploader { old_total: 1 });
    assert_eq!(shown(&r[0]).1, vec!["'@u:x'".to_string()]);
    let r = replace_statements(&order, &ReplaceStep::Write);
    assert_eq!(r.len(), 4);
    is(
        &r[0],
        &format!("UPDATE gifs SET filename = $1, hash = $2, frame_count = $3, duration_ms = $4 WHERE id = $5 RETURNING {GIF_COLS}"),
        &["'n.gif'", "'h2'", "3", "300", "'i'"],
    );
    is(
        &r[3],
        "UPDATE gif_renditions SET width = $1, height = $2, size_bytes = $3 WHERE gif_id = $4 AND rendition = $5",
        &["4", "3", "10", "'i'", "'thumbnail'"],
    );
}

#[test]
fn selections_count_once_a_day() {
    let step = record_selection(SelectionStep::Insert, SelectionEvent::Created(1));
    assert!(matches!(step, SelectionStep::Finished(true)));
    let step = record_selection(SelectionStep::Insert, SelectionEvent::Created(0));
    assert!(matches!(step, SelectionStep::Refresh));
    let step = record_selection(SelectionStep::Refresh, SelectionEvent::Stale(false));
    assert!(matches!(step, SelectionStep::Finished(false)));
    let step = record_selection(SelectionStep::Refresh, SelectionEvent::Stale(true));
    assert!(matches!(step, SelectionStep::Finished(true)));
    let s = selection_statement(&SelectionStep::Insert, "@u:x", "i").unwrap();
    assert!(s.text.starts_with("INSERT INTO selections"));
    assert_eq!(shown(&s).1, vec!["'@u:x'".to_string(), "'i'".to_string()]);
    let s = selection_statement(&SelectionStep::Refresh, "@u:x", "i").unwrap();
    assert!(s.text.contains("interval '1 day'"));
    assert!(selection_statement(&SelectionStep::Finished(true), "@u:x", "i").is_none());
}

#[test]
fn reconciliation() {
    assert!(!storage_differs(5, 5));
    assert!(storage_differs(5, 6));
    assert!(storage_differs(5, -1));
    assert!(!storage_differs(u64::MAX, -1));
}

/// Stores a GIF among those held, which are given by uploader, hash and bytes.
fn store(order: &InsertOrder, held: &mut Vec<(String, String, i64)>) -> UploadOutcome {
    let mut step = InsertStep::Lookup;
    loop {
        let own = held.iter().filter(|h| h.0 == order.uploader_id);
        let event = match &step {
            InsertStep::Lookup => {
                InsertEvent::Found(own.filter(|h| h.1 == order.hash).map(|_| gif("old")).next())
            }
            InsertStep::SumAll => InsertEvent::GlobalTotal(held.iter().map(|h| h.2).sum()),
            InsertStep::SumUploader => InsertEvent::UserTotal(own.map(|h| h.2).sum()),
            InsertStep::Write => {
                let bytes = order.renditions.iter().map(|r| r.size_bytes as i64).sum();
                held.push((order.uploader_id.clone(), order.hash.clone(), bytes));
                InsertEvent::Stored(gif("new"))
            }
            InsertStep::Finished(_) => unreachable!(),
        };
        step = insert_gif_quota(order, step, event);
        if let InsertStep::Finished(outcome) = step {
            return outcome;
        }
    }
}

#[test]
fn uploads_keep_the_caps() {
    let mut held = Vec::new();
    let mut outcomes = String::new();
    for n in 0..12 {
        let mut order = insert_order(500, 300);
        order.uploader_id = format!("@u{}:x", n % 3);
        order.hash = format!("h{}", n / 6);
        outcomes.push(match store(&order, &mut held) {
            UploadOutcome::Inserted(_) => 'i',
            UploadOutcome::Duplicate(_) => 'd',
            UploadOutcome::QuotaExceeded => 'q',
        });
    }
    assert_eq!(outcomes, "iiidddiiqddq");
    assert_eq!(held.iter().map(|h| h.2).sum::<i64>(), 500);
}

#[test]
fn one_use_within_a_day() {
    let mut prior: Option<i64> = None;
    let mut counted = Vec::new();
    for now in [0, 10, 86_399, 172_798, 172_799, 259_199] {
        let created = SelectionEvent::Created(if prior.is_none() { 1 } else { 0 });
        let mut step = record_selection(SelectionStep::Insert, created);
        if let SelectionStep::Refresh = step {
            step = record_selection(step, SelectionEvent::Stale(prior.unwrap() <= now - 86_400));
        }
        prior = Some(now);
        counted.push(matches!(step, SelectionStep::Finished(true)));
    }
    assert_eq!(counted, vec![true, false, false, false, false, true]);
}
