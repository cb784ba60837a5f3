use gif_server::auth::AuthUser;
use gif_server::config::Config;
use gif_server::error::AppError;
use gif_server::models::{
    Gif, GifPatch, GifRendition, GifResponse, PaginationParams, SearchParams, SuggestParams,
    TagsBody,
};
use gif_server::router::{create_router, Group, Handler, Method, RateKey, MAX_BODY_BYTES};
use gif_server::routes::cursor::{encode_offset, encode_seeded_offset, decode_seeded_offset};
use gif_server::routes::favorites::{
    add_favorite, add_hidden, list_favorites, list_hidden, list_history, remove_favorite,
    remove_hidden, require_viewable,
};
use gif_server::routes::fetch::{
    check_patch, content_length, delete_gif, deleted, get_gif, load_mutable, load_viewable,
    patch_gif, replace_file, replaced, replacement, select_gif, selection_for, serve_file, RenditionQuery,
};
use gif_server::routes::health::{health, probe};
use gif_server::routes::search::{
    featured, featured_with, merge, next_page, page_limit, recent, search, search_response,
    search_terms, searched, suggest, SearchStep,
};
use gif_server::routes::tags::{delete_tags, patch_tags, put_tags};
use gif_server::routes::upload::{
    build_renditions_pub, cap_tags, content_hash, decided, field_kind, files_to_write,
    find_duplicate, is_yes,
    looked_up, new_id, parse_tags, rendition_url, rollback, to_response, upload, upload_name,
    valid_visibility, FieldKind, UploadForm, UploadNext,
};
use gif_server::storage::db::{ReplaceOutcome, SelectionStep, UploadOutcome};
use gif_server::storage::sql::{Param, Statement};
use gif_server::storage::{process_gif, GifInfo, Renditions};

fn user(mxid: &str, is_admin: bool) -> AuthUser {
    AuthUser { mxid: mxid.to_string(), is_admin }
}

fn gif(id: &str, uploader: &str, visibility: &str) -> Gif {
    Gif {
        id: id.to_string(),
        filename: "f.gif".to_string(),
        hash: "h".to_string(),
        uploader_id: uploader.to_string(),
        visibility: visibility.to_string(),
        is_nsfw: true,
        frame_count: 3,
        duration_ms: 300,
        uses: 7,
        uploaded_at: time::OffsetDateTime::UNIX_EPOCH,
    }
}

fn row(rendition: &str, filename: &str) -> GifRendition {
    GifRendition {
        gif_id: "g".to_string(),
        rendition: rendition.to_string(),
        filename: filename.to_string(),
        width: 4,
        height: 3,
        size_bytes: 12,
    }
}

fn rows() -> Vec<GifRendition> {
    vec![row("original", "o.gif"), row("preview", "p.gif"), row("thumbnail", "t.png")]
}

fn texts(s: &Statement) -> Vec<String> {
    s.params
        .iter()
        .map(|p| match p {
            Param::Text(t) => t.clone(),
            Param::Texts(v) => v.join("|"),
            Param::Int(n) => n.to_string(),
            Param::BigInt(n) => n.to_string(),
            Param::Bool(b) => b.to_string(),
        })
        .collect()
}

fn config() -> Config {
    Config {
        database_url: String::new(),
        storage_path: "storage".to_string(),
        host: "0.0.0.0".to_string(),
        port: 8847,
        base_url: "http://localhost:8847".to_string(),
        matrix_server_name: "example.com".to_string(),
        matrix_federation_url: "https://example.com:8448".to_string(),
        admin_mxids: Vec::new(),
        session_secret: "0123456789abcdef0123456789abcdef".to_string(),
        storage_max_bytes: 1000,
        per_user_storage_bytes: 100,
        cors_allowed_origins: Vec::new(),
    }
}

#[test]
fn viewing_and_changing() {
    let owner = user("@a:x", false);
    let other = user("@b:x", false);
    let admin = user("@c:x", true);
    assert!(load_viewable(Some(gif("g", "@a:x", "private")), &owner).is_ok());
    assert!(matches!(
        load_viewable(Some(gif("g", "@a:x", "private")), &other),
        Err(AppError::NotFound)
    ));
    assert!(matches!(load_viewable(None, &owner), Err(AppError::NotFound)));
    assert!(load_mutable(Some(gif("g", "@a:x", "shared")), &owner).is_ok());
    assert!(load_mutable(Some(gif("g", "@a:x", "shared")), &admin).is_ok());
    assert!(matches!(
        load_mutable(Some(gif("g", "@a:x", "shared")), &other),
        Err(AppError::Forbidden)
    ));
    assert!(matches!(
        load_mutable(Some(gif("g", "@a:x", "private")), &admin),
        Err(AppError::NotFound)
    ));
    assert!(matches!(load_mutable(None, &admin), Err(AppError::NotFound)));
    assert!(matches!(
        require_viewable(Some(gif("g", "@a:x", "private")), &other),
        Err(AppError::NotFound)
    ));
}

#[test]
fn urls_of_renditions() {
    assert_eq!(rendition_url("http://h", "g", "original"), "http://h/gifs/g/file");
    assert_eq!(
        rendition_url("http://h", "g", "preview"),
        "http://h/gifs/g/file?rendition=preview"
    );
    assert_eq!(rendition_url("", "", "x"), "/gifs//file?rendition=x");
}

#[test]
fn gifs_are_told() {
    let target = load_viewable(Some(gif("g", "@a:x", "shared")), &user("@b:x", false)).ok().unwrap();
    assert_eq!(target.gif().id, "g");
    assert_eq!(target.user().mxid, "@b:x");
    let r = get_gif(target, vec!["cat".to_string()], &rows(), "http://h");
    assert_eq!(r.id, "g");
    assert_eq!(r.filename, "f.gif");
    assert_eq!(r.uploader_id, "@a:x");
    assert_eq!(r.visibility, "shared");
    assert!(r.is_nsfw);
    assert_eq!((r.frame_count, r.duration_ms, r.uses), (3, 300, 7));
    assert_eq!(r.uploaded_at, time::OffsetDateTime::UNIX_EPOCH);
    assert_eq!(r.tags, vec!["cat".to_string()]);
    assert_eq!(r.renditions.entries.len(), 3);
    let p = r.renditions.get("preview").unwrap();
    assert_eq!(p.url, "http://h/gifs/g/file?rendition=preview");
    assert_eq!((p.width, p.height, p.size_bytes), (4, 3, 12));
    assert!(r.renditions.get("x").is_none());
}

#[test]
fn the_later_rendition_of_a_name_counts() {
    let mut later = row("preview", "q.gif");
    later.width = 9;
    let m = build_renditions_pub("", "g", &vec![row("preview", "p.gif"), row("original", "o"), later]);
    assert_eq!(m.entries.len(), 2);
    assert_eq!(m.get("preview").unwrap().width, 9);
    let r = to_response(gif("g", "@a:x", "shared"), Vec::new(), m, "");
    assert_eq!(r.renditions.entries.len(), 2);
}

#[test]
fn files_are_served() {
    let target = load_viewable(Some(gif("g", "@a:x", "shared")), &user("@b:x", false)).ok().unwrap();
    let ask = |r: Option<&str>| RenditionQuery { rendition: r.map(str::to_string) };
    let plan = serve_file(&target, &ask(None), &rows()).ok().unwrap();
    assert_eq!((plan.filename.as_str(), plan.content_type), ("o.gif", "image/gif"));
    assert_eq!(plan.cache_control, "private, max-age=31536000");
    let plan = serve_file(&target, &ask(Some("thumbnail")), &rows()).ok().unwrap();
    assert_eq!((plan.filename.as_str(), plan.content_type), ("t.png", "image/png"));
    let plan = serve_file(&target, &ask(Some("preview")), &rows()).ok().unwrap();
    assert_eq!((plan.filename.as_str(), plan.content_type), ("p.gif", "image/gif"));
    assert!(matches!(serve_file(&target, &ask(Some("x")), &rows()), Err(AppError::NotFound)));
    assert!(matches!(serve_file(&target, &ask(None), &Vec::new()), Err(AppError::NotFound)));
    assert_eq!(content_length(3067114), "3067114");
}

#[test]
fn deleting() {
    let target = load_mutable(Some(gif("g", "@a:x", "shared")), &user("@a:x", false)).ok().unwrap();
    let plan = delete_gif(&target, &rows());
    assert_eq!(plan.statement.text, "DELETE FROM gifs WHERE id = $1");
    assert_eq!(texts(&plan.statement), vec!["g".to_string()]);
    assert_eq!(plan.files, vec!["o.gif", "p.gif", "t.png"]);
    assert_eq!(deleted(1).ok(), Some(204));
    assert!(matches!(deleted(0), Err(AppError::NotFound)));
}

fn message<T>(r: Result<T, AppError>) -> String {
    match r {
        Err(AppError::BadRequest(m)) => m,
        _ => panic!("expected a bad request"),
    }
}

#[test]
fn patching() {
    let target = load_mutable(Some(gif("g", "@a:x", "shared")), &user("@a:x", false)).ok().unwrap();
    let body = |v: Option<&str>, is_nsfw| GifPatch { visibility: v.map(str::to_string), is_nsfw };
    let plan = patch_gif(body(Some(" PRIVATE "), Some(true))).ok().unwrap();
    let s = plan.apply(&target);
    assert_eq!(s.len(), 2);
    assert_eq!(s[0].text, "UPDATE gifs SET visibility = $1 WHERE id = $2");
    assert_eq!(texts(&s[0]), vec!["private".to_string(), "g".to_string()]);
    assert_eq!(s[1].text, "UPDATE gifs SET is_nsfw = $1 WHERE id = $2");
    assert_eq!(texts(&s[1]), vec!["true".to_string(), "g".to_string()]);
    assert_eq!(patch_gif(body(None, Some(false))).ok().unwrap().apply(&target).len(), 1);
    assert_eq!(patch_gif(body(Some("shared"), None)).ok().unwrap().apply(&target).len(), 1);
    assert_eq!(
        message(patch_gif(body(None, None))),
        "provide at least one of: visibility, is_nsfw"
    );
    assert_eq!(
        message(patch_gif(body(Some("public"), None))),
        "visibility must be 'shared' or 'private'"
    );
    assert_eq!(
        message(check_patch(Some("Shared".to_string()), None)),
        "visibility must be 'shared' or 'private'"
    );
}

fn made() -> Renditions {
    Renditions {
        info: GifInfo { frame_count: 2, duration_ms: 200, width: 400, height: 300 },
        preview: vec![0; 30],
        thumbnail: vec![0; 10],
        thumbnail_width: 220,
        thumbnail_height: 165,
    }
}

#[test]
fn replacing_a_file() {
    let target = load_mutable(Some(gif("g", "@a:x", "shared")), &user("@c:x", true)).ok().unwrap();
    let data = vec![1, 2, 3];
    let order = replace_file(&target, &data, &made(), &rows(), &config()).ok().unwrap();
    assert_eq!((order.id.as_str(), order.uploader_id.as_str()), ("g", "@a:x"));
    assert_eq!(order.filename, target.gif().filename);
    assert_eq!(order.filename, gif("g", "@a:x", "shared").filename);
    assert_eq!(order.hash, content_hash(&data));
    assert_eq!((order.frame_count, order.duration_ms), (2, 200));
    assert_eq!((order.global_max, order.per_user_max), (1000, 100));
    let names: Vec<&str> = order.renditions.iter().map(|r| r.filename.as_str()).collect();
    assert_eq!(names, vec!["o.gif", "p.gif", "t.png"]);
    let two = vec![row("original", "o.gif"), row("preview", "p.gif")];
    assert!(matches!(
        replace_file(&target, &data, &made(), &two, &config()),
        Err(AppError::NotFound)
    ));
    assert_eq!(replacement(Some(vec![1, 2])).ok().unwrap(), vec![1, 2]);
    match replacement(None) {
        Err(AppError::BadRequest(m)) => assert_eq!(m, "missing file field"),
        _ => panic!("expected a bad request"),
    }
    assert!(matches!(replaced(ReplaceOutcome::QuotaExceeded), Err(AppError::InsufficientStorage)));
    match replaced(ReplaceOutcome::Duplicate) {
        Err(AppError::Conflict(m)) => assert_eq!(m, "you already have a GIF with this content"),
        _ => panic!("expected a conflict"),
    }
    let g = replaced(ReplaceOutcome::Updated(gif("g", "@a:x", "shared"))).ok().unwrap();
    assert_eq!(g.id, "g");
}

#[test]
fn selecting() {
    let target = load_viewable(Some(gif("g", "@a:x", "shared")), &user("@b:x", false)).ok().unwrap();
    let s = selection_for(&target, &SelectionStep::Insert).unwrap();
    assert_eq!(texts(&s), vec!["@b:x".to_string(), "g".to_string()]);
    let s = select_gif(&target, true).unwrap();
    assert_eq!(s.text, "UPDATE gifs SET uses = uses + 1 WHERE id = $1");
    assert!(select_gif(&target, false).is_none());
}

#[test]
fn favorites_and_hiding() {
    let u = user("@b:x", false);
    let target = require_viewable(Some(gif("g", "@a:x", "shared")), &u).ok().unwrap();
    let both = vec!["@b:x".to_string(), "g".to_string()];
    assert_eq!(texts(&add_favorite(&target)), both);
    assert!(add_favorite(&target).text.starts_with("INSERT INTO favorites"));
    assert_eq!(texts(&add_hidden(&target)), both);
    assert!(add_hidden(&target).text.starts_with("INSERT INTO hidden"));
    assert_eq!(texts(&remove_favorite(&u, "g")), both);
    assert!(remove_favorite(&u, "g").text.starts_with("DELETE FROM favorites"));
    assert_eq!(texts(&remove_hidden(&u, "g")), both);
    assert!(remove_hidden(&u, "g").text.starts_with("DELETE FROM hidden"));
}

fn paging(limit: Option<i64>, pos: Option<String>, random: Option<bool>) -> PaginationParams {
    PaginationParams { limit, pos, mine: false, grab_nsfw: false, grab_hidden: false, random }
}

fn responses(n: usize) -> Vec<GifResponse> {
    let mut r = Vec::new();
    for _ in 0..n {
        let m = build_renditions_pub("", "g", &Vec::new());
        r.push(to_response(gif("g", "@a:x", "shared"), Vec::new(), m, ""));
    }
    r
}

#[test]
fn own_lists() {
    let u = user("@b:x", false);
    let params = paging(Some(2), Some(encode_offset(4)), None);
    for (page, word) in [
        (list_favorites(&u, &params), "favorites"),
        (list_hidden(&u, &params), "hidden"),
        (list_history(&u, &params), "selections"),
    ] {
        assert!(page.statement.text.contains(&format!("JOIN {word}")));
        assert_eq!(texts(&page.statement), vec!["2", "4", "@b:x"]);
        let full = page.respond(responses(2));
        assert_eq!(full.results.len(), 2);
        assert_eq!(full.next, Some(encode_offset(6)));
        assert_eq!(page.respond(responses(1)).next, None);
    }
}

#[test]
fn page_sizes() {
    assert_eq!(page_limit(None), 20);
    assert_eq!(page_limit(Some(5)), 5);
    assert_eq!(page_limit(Some(51)), 50);
    assert_eq!(page_limit(Some(-1)), -1);
    assert_eq!(next_page(20, 20, 0, None), Some(encode_offset(20)));
    assert_eq!(next_page(20, 20, 20, Some(9)), Some(encode_seeded_offset(9, 40)));
    assert_eq!(next_page(19, 20, 0, None), None);
    assert_eq!(next_page(0, 0, 5, None), Some(encode_offset(5)));
    assert_eq!(next_page(0, -1, i64::MIN, None), None);
}

#[test]
fn recent_and_featured_pages() {
    let u = user("@b:x", false);
    let page = recent(&paging(None, None, None), &u);
    assert!(page.statement.text.ends_with("ORDER BY uploaded_at DESC LIMIT $1 OFFSET $2"));
    assert_eq!(texts(&page.statement), vec!["20", "0", "@b:x"]);
    let page = featured(&paging(Some(3), Some(encode_offset(3)), Some(false)), &u);
    assert!(page.statement.text.contains("ORDER BY uses DESC, uploaded_at DESC"));
    assert_eq!((page.limit, page.offset, page.seed), (3, 3, None));
}

#[test]
fn shuffles_keep_their_seed() {
    let u = user("@b:x", false);
    let first = featured_with(&paging(Some(2), None, Some(true)), &u, 77);
    assert_eq!((first.offset, first.seed), (0, Some(77)));
    assert_eq!(texts(&first.statement), vec!["2", "0", "@b:x", "77"]);
    let next = first.respond(responses(2)).next;
    let second = featured_with(&paging(Some(2), next, Some(true)), &u, 78);
    assert_eq!((second.offset, second.seed), (2, Some(77)));
    // the cursor of a plain page begins a new shuffle
    let plain = featured_with(&paging(Some(2), Some(encode_offset(2)), Some(true)), &u, 78);
    assert_eq!((plain.offset, plain.seed), (0, Some(78)));
}

#[test]
fn fresh_seeds_differ() {
    let u = user("@b:x", false);
    let a = featured(&paging(None, None, Some(true)), &u);
    let b = featured(&paging(None, None, Some(true)), &u);
    assert!(a.seed.is_some() && b.seed.is_some());
    assert_ne!(a.seed, b.seed);
    // the version of a random UUID stands in the upper half of its seventh byte
    assert_eq!((a.seed.unwrap() as u64 >> 52) & 15, 4);
    let next = a.respond(responses(20)).next;
    assert_eq!(decode_seeded_offset(next.as_deref()), Some((a.seed.unwrap(), 20)));
}

fn query(q: Option<&str>, limit: i64) -> SearchParams {
    SearchParams {
        q: q.map(str::to_string),
        limit: Some(limit),
        pos: None,
        mine: false,
        grab_nsfw: false,
        grab_hidden: false,
    }
}

#[test]
fn searching_by_tags_then_names() {
    let u = user("@b:x", false);
    let params = query(Some(" Cat  FUNNY "), 3);
    let step = search(&params, &u);
    match &step {
        SearchStep::ByTags(s) => {
            assert_eq!(texts(s), vec!["cat%|funny%", "3", "0", "@b:x"]);
        }
        _ => panic!("expected a search by tags"),
    }
    let found = vec![gif("1", "@a:x", "shared"), gif("2", "@a:x", "shared")];
    let step = searched(&params, &u, step, found);
    match &step {
        SearchStep::ByFilename(s, gifs) => {
            assert_eq!(texts(s), vec![" Cat  FUNNY ", "3", "0", "@b:x"]);
            assert_eq!(gifs.len(), 2);
        }
        _ => panic!("expected a search by file name"),
    }
    let more = vec![
        gif("2", "@a:x", "shared"),
        gif("3", "@a:x", "shared"),
        gif("4", "@a:x", "shared"),
    ];
    match searched(&params, &u, step, more) {
        SearchStep::Finished(gifs) => {
            let ids: Vec<&str> = gifs.iter().map(|g| g.id.as_str()).collect();
            assert_eq!(ids, vec!["1", "2", "3"]);
        }
        _ => panic!("expected the end"),
    }
    assert_eq!(search_response(&params, responses(3)).next, Some(encode_offset(3)));
    assert_eq!(search_response(&params, responses(2)).next, None);
}

#[test]
fn full_pages_need_no_names() {
    let u = user("@b:x", false);
    let params = query(Some("cat"), 1);
    let step = search(&params, &u);
    let step = searched(&params, &u, step, vec![gif("1", "@a:x", "shared")]);
    assert!(matches!(step, SearchStep::Finished(g) if g.len() == 1));
    for q in [None, Some("")] {
        let params = query(q, 1);
        let step = search(&params, &u);
        assert!(matches!(&step, SearchStep::Recent(s) if s.text.contains("uploaded_at DESC")));
        let step = searched(&params, &u, step, vec![gif("1", "@a:x", "shared")]);
        assert!(matches!(step, SearchStep::Finished(g) if g.len() == 1));
    }
}

#[test]
fn merging_and_terms() {
    let page = merge(
        vec![gif("1", "@a:x", "shared")],
        vec![gif("1", "@a:x", "shared"), gif("2", "@a:x", "shared")],
        5,
    );
    assert_eq!(page.len(), 2);
    assert_eq!(page[1].id, "2");
    assert_eq!(search_terms("A\u{3000}bÉ"), vec!["a", "bé"]);
    assert!(search_terms("  ").is_empty());
}

#[test]
fn suggesting() {
    let ask = |q: &str, limit| SuggestParams { q: q.to_string(), limit, grab_nsfw: false };
    assert_eq!(texts(&suggest(&ask("CA_", None))), vec!["ca%", "10"]);
    assert_eq!(texts(&suggest(&ask("x", Some(99)))), vec!["x%", "20"]);
}

#[test]
fn tagging() {
    let target = load_mutable(Some(gif("g", "@a:x", "shared")), &user("@a:x", false)).ok().unwrap();
    let body = TagsBody { tags: vec!["Cat".to_string(), "FUN".to_string()] };
    let s = put_tags(&target, &body);
    assert_eq!(s.len(), 3);
    assert_eq!(texts(&s[1]), vec!["g".to_string(), "cat".to_string()]);
    let s = patch_tags(&target, &body);
    assert_eq!(s.len(), 2);
    assert!(s[0].text.ends_with("ON CONFLICT DO NOTHING"));
    let s = delete_tags(&target, &body);
    assert!(s[1].text.starts_with("DELETE FROM tags"));
    assert_eq!(texts(&s[1]), vec!["g".to_string(), "fun".to_string()]);
}

#[test]
fn probing() {
    assert_eq!(probe().text, "SELECT 1");
    assert_eq!(health(true), 200);
    assert_eq!(health(false), 503);
}

#[test]
fn tags_of_an_upload() {
    assert_eq!(parse_tags(" Cat, ,FUNNY,,é "), vec!["cat", "funny", "é"]);
    assert!(parse_tags("").is_empty());
    let many: Vec<String> = (0..30).map(|i| format!("t{i}")).collect();
    let tags = parse_tags(&many.join(","));
    assert_eq!(tags.len(), 20);
    assert_eq!(tags[19], "t19");
    let long = "é".repeat(150);
    assert_eq!(parse_tags(&long)[0].chars().count(), 100);
    assert_eq!(cap_tags(&vec![String::new(), "B".to_string()]), vec!["B"]);
}

#[test]
fn forms() {
    assert_eq!(field_kind(Some("file")), FieldKind::File);
    assert_eq!(field_kind(Some("tags")), FieldKind::Tags);
    assert_eq!(field_kind(Some("visibility")), FieldKind::Visibility);
    assert_eq!(field_kind(Some("nsfw")), FieldKind::Nsfw);
    assert_eq!(field_kind(Some("File")), FieldKind::Other);
    assert_eq!(field_kind(None), FieldKind::Other);
    assert!(valid_visibility("shared") && valid_visibility("private") && !valid_visibility(""));
    assert!(is_yes("true") && is_yes("1") && is_yes("yes") && !is_yes("on") && !is_yes("True"));
    assert_eq!(upload_name(None), "upload.gif");
    assert_eq!(upload_name(Some("x")), "x");

    let mut form = UploadForm::new();
    form.put_file(Some("a.gif"), vec![1]);
    form.put_file(None, vec![2, 3]);
    form.put_text(FieldKind::Tags, "A,b");
    form.put_text(FieldKind::Visibility, " Private\n");
    form.put_text(FieldKind::Nsfw, " YES ");
    form.put_text(FieldKind::Other, "zzz");
    let request = form.finish().ok().unwrap();
    assert_eq!(request.filename, "upload.gif");
    assert_eq!(request.data, vec![2, 3]);
    assert_eq!(request.hash, content_hash(&[2, 3]));
    assert_eq!(request.tags, vec!["a", "b"]);
    assert_eq!(request.visibility, "private");
    assert!(request.is_nsfw);
}

#[test]
fn incomplete_forms() {
    assert_eq!(message(UploadForm::new().finish()), "missing file field");
    let mut form = UploadForm::new();
    form.put_text(FieldKind::Visibility, "public");
    assert_eq!(message(form.finish()), "visibility must be 'shared' or 'private'");
    let mut form = UploadForm::new();
    form.put_file(None, Vec::new());
    let request = form.finish().ok().unwrap();
    assert_eq!(request.visibility, "shared");
    assert!(!request.is_nsfw && request.tags.is_empty());
}

#[test]
fn content_hashes() {
    assert_eq!(
        content_hash(b"abc"),
        "ba7816bf8f01cfea414140de5dae2223b00361a396177a9cb410ff61f20015ad"
    );
    assert_eq!(
        content_hash(b""),
        "e3b0c44298fc1c149afbf4c8996fb92427ae41e4649b934ca495991b7852b855"
    );
}

#[test]
fn ids_are_random_uuids() {
    let a = new_id();
    assert_ne!(a, new_id());
    assert_eq!(a.len(), 36);
    assert_eq!(&a[14..15], "4");
    assert!(["8", "9", "a", "b"].contains(&&a[19..20]));
    for (i, c) in a.chars().enumerate() {
        if i == 8 || i == 13 || i == 18 || i == 23 {
            assert_eq!(c, '-');
        } else {
            assert!(c.is_ascii_hexdigit() && !c.is_ascii_uppercase());
        }
    }
}

#[test]
fn uploads_become_orders() {
    let mut form = UploadForm::new();
    form.put_file(Some("a.gif"), vec![0; 60]);
    form.put_text(FieldKind::Tags, "cat");
    let request = form.finish().ok().unwrap();
    let u = user("@a:x", false);
    assert_eq!(texts(&find_duplicate(&request, &u)), vec!["@a:x".to_string(), request.hash.clone()]);
    let order = upload(&request, &u, &config(), "id", &made());
    assert_eq!(order.id, "id");
    assert_eq!(order.filename, "a.gif");
    assert_eq!(order.hash, request.hash);
    assert_eq!(order.uploader_id, "@a:x");
    assert_eq!(order.visibility, "shared");
    assert_eq!((order.frame_count, order.duration_ms), (2, 200));
    assert_eq!(order.tags, vec!["cat"]);
    assert_eq!((order.global_max, order.per_user_max), (1000, 100));
    let r = &order.renditions;
    assert_eq!(r.len(), 3);
    assert_eq!((r[0].rendition, r[0].filename.as_str()), ("original", "id.gif"));
    assert_eq!((r[0].width, r[0].height, r[0].size_bytes), (400, 300, 60));
    assert_eq!((r[1].rendition, r[1].filename.as_str()), ("preview", "id_preview.gif"));
    assert_eq!((r[1].width, r[1].height, r[1].size_bytes), (220, 165, 30));
    assert_eq!((r[2].rendition, r[2].filename.as_str()), ("thumbnail", "id_thumb.png"));
    assert_eq!((r[2].width, r[2].height, r[2].size_bytes), (220, 165, 10));
    let undo = rollback(&order);
    assert_eq!(undo.statement.text, "DELETE FROM gifs WHERE id = $1");
    assert_eq!(undo.files, vec!["id.gif", "id_preview.gif", "id_thumb.png"]);
}

#[test]
fn upload_outcomes() {
    assert!(matches!(decided(UploadOutcome::QuotaExceeded), Err(AppError::InsufficientStorage)));
    let next = decided(UploadOutcome::Duplicate(gif("g", "@a:x", "shared"))).ok().unwrap();
    assert_eq!(next.status(), 200);
    assert!(matches!(next, UploadNext::Existing(g) if g.id == "g"));
    let next = decided(UploadOutcome::Inserted(gif("g", "@a:x", "shared"))).ok().unwrap();
    assert_eq!(next.status(), 201);
    assert!(looked_up(None).is_none());
    assert_eq!(looked_up(Some(gif("g", "@a:x", "shared"))).unwrap().status(), 200);
}

#[test]
fn broken_uploads_are_refused() {
    assert!(message(process_gif(b"not a gif")).starts_with("invalid GIF: "));
}

#[test]
fn all_routes_but_two_need_a_session() {
    let routes = create_router();
    assert_eq!(routes.len(), 22);
    for r in &routes {
        let open = (r.method == Method::Post && r.path == "/auth/matrix")
            || (r.method == Method::Get && r.path == "/health");
        assert_eq!(r.group.needs_session(), !open, "{}", r.path);
    }
    for (i, a) in routes.iter().enumerate() {
        for b in &routes[i + 1..] {
            assert!(a.method != b.method || a.path != b.path);
            assert!(a.handler != b.handler);
        }
    }
    let find = |m: Method, p: &str| {
        routes.iter().find(|r| r.method == m && r.path == p).map(|r| (r.handler, r.group))
    };
    assert_eq!(find(Method::Post, "/gifs"), Some((Handler::Upload, Group::Protected)));
    assert_eq!(find(Method::Get, "/gifs/{id}/file"), Some((Handler::ServeFile, Group::Files)));
    assert_eq!(find(Method::Get, "/gifs/tags/suggest"), Some((Handler::Suggest, Group::Suggest)));
    assert_eq!(find(Method::Put, "/gifs/{id}/hide"), Some((Handler::AddHidden, Group::Protected)));
    assert_eq!(find(Method::Get, "/nowhere"), None);
}

#[test]
fn limits_of_groups() {
    let limits = |g: Group| -> Vec<(RateKey, u64, u32)> {
        g.rate_limits().iter().map(|l| (l.key, l.interval_ms, l.burst)).collect()
    };
    assert_eq!(limits(Group::Protected), vec![(RateKey::User, 33, 60)]);
    assert_eq!(limits(Group::Files), vec![(RateKey::User, 5, 1000)]);
    assert_eq!(limits(Group::Suggest), vec![(RateKey::User, 20, 200)]);
    assert_eq!(
        limits(Group::Auth),
        vec![(RateKey::Everybody, 200, 20), (RateKey::Address, 1000, 5)]
    );
    assert!(limits(Group::Public).is_empty());
    assert_eq!(MAX_BODY_BYTES, 50 * 1024 * 1024);
}

#[test]
fn pages_make_the_list() {
    for len in [0usize, 1, 19, 20, 40, 45] {
        let all: Vec<usize> = (0..len).collect();
        for random in [None, Some(true)] {
            let mut pos: Option<String> = None;
            let mut walked = Vec::new();
            let mut seeds = Vec::new();
            for fresh in 7.. {
                let params = PaginationParams {
                    limit: None,
                    pos: pos.clone(),
                    mine: false,
                    grab_nsfw: false,
                    grab_hidden: false,
                    random,
                };
                let page = featured_with(&params, &user("@a:x", false), fresh);
                let from = len.min(page.offset as usize);
                let to = len.min(from + page.limit as usize);
                walked.extend_from_slice(&all[from..to]);
                seeds.push(page.seed);
                pos = next_page(to - from, page.limit, page.offset, page.seed);
                if pos.is_none() {
                    break;
                }
            }
            assert_eq!(walked, all);
            assert!(seeds.iter().all(|s| *s == random.map(|_| 7)));
            assert_eq!(seeds.len(), len / 20 + 1);
        }
    }
}

#[test]
fn files_get_their_contents() {
    let mut made = made();
    made.preview = vec![2; 3];
    made.thumbnail = vec![3; 4];
    let data = vec![1; 2];
    let target = load_mutable(Some(gif("g", "@a:x", "shared")), &user("@a:x", false)).ok().unwrap();
    let order = replace_file(&target, &data, &made, &rows(), &config()).ok().unwrap();
    assert_eq!(
        files_to_write(&order.renditions, &data, &made),
        vec![
            ("o.gif", data.as_slice()),
            ("p.gif", made.preview.as_slice()),
            ("t.png", made.thumbnail.as_slice()),
        ]
    );
}
