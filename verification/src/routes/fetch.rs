//! Showing, serving, changing, replacing and selecting a GIF.

use vstd::prelude::*;

use crate::auth::AuthUser;
use crate::config::Config;
use crate::error::{AppError, ErrorView};
use crate::models::{Gif, GifPatch, GifRendition, GifResponse};
use crate::number::{decimal, write_u64};
use crate::routes::search::gif_to_response;
use crate::routes::upload::{
    content_hash, hash_of, is_visibility, normalized, rendition_specs, renditions_of, tells,
    three_renditions, valid_visibility,
};
use crate::storage::db::{self, ReplaceOrder, ReplaceOutcome, SelectionStep};
use crate::storage::rows::{
    lemma_row_texts, lemma_rows_on, lemma_rows_one, rows_after, GifRow, Stored,
};
use crate::storage::sql::{sql, statements, ParamView, Statement, StatementView};
use crate::storage::Renditions;
use crate::text::{lowercase, same, texts, trim, trimmed};

verus! {

/// Which rendition of a file is asked for.
pub struct RenditionQuery {
    pub rendition: Option<String>,
}

/// What becomes of a request for a GIF: a GIF that the user may not see is answered as one that
/// is not there.
pub open spec fn for_viewing(found: Option<Gif>, user: AuthUser) -> Result<Gif, ErrorView> {
    match found {
        Some(gif) => if user.sees(gif) {
            Ok(gif)
        } else {
            Err(ErrorView::NotFound)
        },
        None => Err(ErrorView::NotFound),
    }
}

/// What becomes of a request to change a GIF: one that the user may see, but not change, is
/// forbidden.
pub open spec fn for_changing(found: Option<Gif>, user: AuthUser) -> Result<Gif, ErrorView> {
    match for_viewing(found, user) {
        Ok(gif) => if user.changes(gif) {
            Ok(gif)
        } else {
            Err(ErrorView::Forbidden)
        },
        Err(e) => Err(e),
    }
}

/// A GIF that the user may see. Only [`load_viewable`] makes one.
pub struct Viewable {
    gif: Gif,
    user: AuthUser,
}

impl Viewable {
    #[verifier::type_invariant]
    spec fn inv(self) -> bool {
        self.user.sees(self.gif)
    }

    /// The GIF.
    pub closed spec fn spec_gif(&self) -> Gif {
        self.gif
    }

    /// The user who may see it.
    pub closed spec fn spec_user(&self) -> AuthUser {
        self.user
    }

    /// The GIF.
    pub fn gif(&self) -> (r: &Gif)
        ensures
            *r == self.spec_gif(),
            self.spec_user().sees(*r),
    {
        proof {
            use_type_invariant(self);
        }
        &self.gif
    }

    /// The user.
    pub fn user(&self) -> (r: &AuthUser)
        ensures
            *r == self.spec_user(),
    {
        &self.user
    }

    /// The GIF itself.
    pub fn into_gif(self) -> (r: Gif)
        ensures
            r == self.spec_gif(),
    {
        self.gif
    }
}

/// A GIF that the user may change. Only [`load_mutable`] makes one.
pub struct Mutable {
    gif: Gif,
    user: AuthUser,
}

impl Mutable {
    #[verifier::type_invariant]
    spec fn inv(self) -> bool {
        self.user.changes(self.gif)
    }

    /// The GIF.
    pub closed spec fn spec_gif(&self) -> Gif {
        self.gif
    }

    /// The user who may change it.
    pub closed spec fn spec_user(&self) -> AuthUser {
        self.user
    }

    /// The GIF.
    pub fn gif(&self) -> (r: &Gif)
        ensures
            *r == self.spec_gif(),
            self.spec_user().changes(*r),
    {
        proof {
            use_type_invariant(self);
        }
        &self.gif
    }
}

fn copy_user(user: &AuthUser) -> (r: AuthUser)
    ensures
        r.mxid@ == user.mxid@,
        r.is_admin == user.is_admin,
{
    AuthUser { mxid: user.mxid.clone(), is_admin: user.is_admin }
}

/// Lets the user see a GIF that was found, where they may. A GIF that they may not see is reported
/// as not found, so that nobody learns that it is there.
pub fn load_viewable(found: Option<Gif>, user: &AuthUser) -> (r: Result<Viewable, AppError>)
    ensures
        match r {
            Ok(v) => for_viewing(found, *user) == Ok::<Gif, ErrorView>(v.spec_gif())
                && v.spec_user().mxid@ == user.mxid@ && v.spec_user().is_admin == user.is_admin,
            Err(e) => for_viewing(found, *user) == Err::<Gif, ErrorView>(e@),
        },
{
    match found {
        Some(gif) => {
            if !user.can_view(&gif) {
                return Err(AppError::NotFound);
            }
            Ok(Viewable { gif, user: copy_user(user) })
        },
        None => Err(AppError::NotFound),
    }
}

/// Lets the user change a GIF that was found, where they may: they uploaded it, or they are an
/// admin and it is shared.
pub fn load_mutable(found: Option<Gif>, user: &AuthUser) -> (r: Result<Mutable, AppError>)
    ensures
        match r {
            Ok(m) => for_changing(found, *user) == Ok::<Gif, ErrorView>(m.spec_gif())
                && m.spec_user().mxid@ == user.mxid@ && m.spec_user().is_admin == user.is_admin,
            Err(e) => for_changing(found, *user) == Err::<Gif, ErrorView>(e@),
        },
{
    let viewable = load_viewable(found, user)?;
    if !user.can_mutate(viewable.gif()) {
        return Err(AppError::Forbidden);
    }
    Ok(Mutable { gif: viewable.into_gif(), user: copy_user(user) })
}

/// A private GIF of another user is answered exactly as a GIF that is not there, on every request.
pub proof fn law_private_looks_absent(gif: Gif, user: AuthUser)
    requires
        !user.sees(gif),
    ensures
        for_viewing(Some(gif), user) == for_viewing(None, user),
        for_changing(Some(gif), user) == for_changing(None, user),
{
}

/// A GIF that the user sees, but may not change, is forbidden, not hidden.
pub proof fn law_seen_but_not_changed_is_forbidden(gif: Gif, user: AuthUser)
    requires
        user.sees(gif),
        !user.changes(gif),
    ensures
        for_changing(Some(gif), user) == Err::<Gif, ErrorView>(ErrorView::Forbidden),
{
}

/// Answers with a GIF.
pub fn get_gif(
    target: Viewable,
    tags: Vec<String>,
    rows: &Vec<GifRendition>,
    base_url: &str,
) -> (r: GifResponse)
    ensures
        tells(r, target.spec_gif()),
        r.id == target.spec_gif().id,
        r.filename == target.spec_gif().filename,
        r.uploader_id == target.spec_gif().uploader_id,
        r.visibility == target.spec_gif().visibility,
        r.is_nsfw == target.spec_gif().is_nsfw,
        r.frame_count == target.spec_gif().frame_count,
        r.duration_ms == target.spec_gif().duration_ms,
        r.uses == target.spec_gif().uses,
        r.uploaded_at == target.spec_gif().uploaded_at,
        r.tags == tags,
        r.renditions.wf(),
        r.renditions@ == renditions_of(base_url@, target.spec_gif().id@, rows@),
{
    gif_to_response(target.into_gif(), tags, rows, base_url)
}

/// A file to be served, and how it is described to the client.
pub struct FilePlan {
    /// The stored file.
    pub filename: String,
    pub content_type: &'static str,
    pub cache_control: &'static str,
}

/// The first rendition of this name.
pub open spec fn first_named(rows: Seq<GifRendition>, rendition: Seq<char>) -> Option<GifRendition>
    decreases rows.len(),
{
    if rows.len() == 0 {
        None
    } else if rows[0].rendition@ == rendition {
        Some(rows[0])
    } else {
        first_named(rows.drop_first(), rendition)
    }
}

/// The file name of the first rendition of this name.
fn filename_for(rows: &Vec<GifRendition>, rendition: &str) -> (r: Result<String, AppError>)
    ensures
        match r {
            Ok(name) => first_named(rows@, rendition@) matches Some(row) && row.filename@ == name@,
            Err(e) => first_named(rows@, rendition@) is None && e@ == ErrorView::NotFound,
        },
{
    let mut i: usize = 0;
    assert(rows@.skip(0) == rows@);
    while i < rows.len()
        invariant
            i <= rows@.len(),
            first_named(rows@.skip(i as int), rendition@) == first_named(rows@, rendition@),
        decreases rows@.len() - i,
    {
        assert(rows@.skip(i as int)[0] == rows@[i as int]);
        if same(rows[i].rendition.as_str(), rendition) {
            return Ok(rows[i].filename.clone());
        }
        assert(rows@.skip(i as int).drop_first() == rows@.skip(i + 1));
        i = i + 1;
    }
    Err(AppError::NotFound)
}

/// The rendition asked for; the original where none is.
pub open spec fn asked_rendition(params: RenditionQuery) -> Seq<char> {
    match params.rendition {
        Some(r) => r@,
        None => "original"@,
    }
}

/// Says which file is served for a rendition. There is none where the GIF has no such rendition.
pub fn serve_file(target: &Viewable, params: &RenditionQuery, rows: &Vec<GifRendition>) -> (r:
    Result<FilePlan, AppError>)
    ensures
        match first_named(rows@, asked_rendition(*params)) {
            Some(row) => {
                &&& r matches Ok(plan)
                &&& plan.filename@ == row.filename@
                &&& plan.content_type@ == (if asked_rendition(*params) == "thumbnail"@ {
                    "image/png"@
                } else {
                    "image/gif"@
                })
                &&& plan.cache_control@ == "private, max-age=31536000"@
            },
            None => r matches Err(e) && e@ == ErrorView::NotFound,
        },
{
    let original = "original".to_owned();
    let rendition = match &params.rendition {
        Some(r) => r.as_str(),
        None => original.as_str(),
    };
    let filename = filename_for(rows, rendition)?;
    let content_type = if same(rendition, "thumbnail") {
        "image/png"
    } else {
        "image/gif"
    };
    Ok(FilePlan { filename, content_type, cache_control: "private, max-age=31536000" })
}

/// The `Content-Length` of a file of this many bytes.
pub fn content_length(bytes: usize) -> (r: String)
    ensures
        r@ == decimal(bytes as nat),
{
    write_u64(bytes as u64)
}

/// What deleting a GIF takes: its row first, then, where there was one, its files.
pub struct DeletePlan {
    pub statement: Statement,
    pub files: Vec<String>,
}

/// The names of stored files.
pub open spec fn stored_files(rows: Seq<GifRendition>) -> Seq<Seq<char>> {
    rows.map_values(|r: GifRendition| r.filename@)
}

/// Says what deleting a GIF takes.
pub fn delete_gif(target: &Mutable, rows: &Vec<GifRendition>) -> (r: DeletePlan)
    ensures
        r.statement@ == sql(
            "DELETE FROM gifs WHERE id = $1"@,
            seq![db::txt(target.spec_gif().id@)],
        ),
        texts(r.files@) == stored_files(rows@),
{
    let mut files: Vec<String> = Vec::new();
    let mut i: usize = 0;
    let ghost all = stored_files(rows@);
    assert(texts(files@) == all.take(0));
    while i < rows.len()
        invariant
            i <= rows@.len(),
            all == stored_files(rows@),
            texts(files@) == all.take(i as int),
        decreases rows@.len() - i,
    {
        let ghost before = files@;
        files.push(rows[i].filename.clone());
        proof {
            assert(texts(files@) == texts(before).push(rows@[i as int].filename@));
            assert(all.take(i + 1) == all.take(i as int).push(all[i as int]));
        }
        i = i + 1;
    }
    assert(all.take(all.len() as int) == all);
    DeletePlan { statement: db::delete_gif(target.gif().id.as_str()), files }
}

/// The status of a deletion that took this many rows: there was no such GIF where it took none.
pub fn deleted(rows_affected: u64) -> (r: Result<u16, AppError>)
    ensures
        match r {
            Ok(status) => rows_affected > 0 && status == 204,
            Err(e) => rows_affected == 0 && e@ == ErrorView::NotFound,
        },
{
    if rows_affected == 0 {
        return Err(AppError::NotFound);
    }
    Ok(204)
}

/// A change that is well formed.
pub struct PatchPlan {
    pub visibility: Option<String>,
    pub is_nsfw: Option<bool>,
}

/// What becomes of a change whose visibility is normalized: at least one field must be there, and
/// the visibility must be a known one.
pub open spec fn patch_fault(visibility: Option<Seq<char>>, is_nsfw: Option<bool>) -> Option<
    ErrorView,
> {
    if visibility is None && is_nsfw is None {
        Some(ErrorView::BadRequest("provide at least one of: visibility, is_nsfw"@))
    } else if visibility is Some && !is_visibility(visibility->0) {
        Some(ErrorView::BadRequest("visibility must be 'shared' or 'private'"@))
    } else {
        None
    }
}

/// The visibility that is asked for, normalized.
pub open spec fn asked_visibility(body: GifPatch) -> Option<Seq<char>> {
    match body.visibility {
        Some(v) => Some(normalized(v@)),
        None => None,
    }
}

/// Checks a change whose visibility is normalized.
pub fn check_patch(visibility: Option<String>, is_nsfw: Option<bool>) -> (r: Result<
    PatchPlan,
    AppError,
>)
    ensures
        ({
            let asked = match visibility {
                Some(v) => Some(v@),
                None => None,
            };
            match r {
                Ok(plan) => patch_fault(asked, is_nsfw) is None && plan.visibility == visibility
                    && plan.is_nsfw == is_nsfw,
                Err(e) => patch_fault(asked, is_nsfw) == Some(e@),
            }
        }),
{
    if visibility.is_none() && is_nsfw.is_none() {
        return Err(
            AppError::BadRequest("provide at least one of: visibility, is_nsfw".to_owned()),
        );
    }
    if let Some(v) = &visibility {
        if !valid_visibility(v.as_str()) {
            return Err(
                AppError::BadRequest("visibility must be 'shared' or 'private'".to_owned()),
            );
        }
    }
    Ok(PatchPlan { visibility, is_nsfw })
}

/// Checks what a change asks for, before the GIF is looked at.
pub fn patch_gif(body: GifPatch) -> (r: Result<PatchPlan, AppError>)
    ensures
        match r {
            Ok(plan) => {
                &&& patch_fault(asked_visibility(body), body.is_nsfw) is None
                &&& plan.is_nsfw == body.is_nsfw
                &&& match (plan.visibility, asked_visibility(body)) {
                    (Some(v), Some(asked)) => v@ == asked,
                    (None, None) => true,
                    _ => false,
                }
            },
            Err(e) => patch_fault(asked_visibility(body), body.is_nsfw) == Some(e@),
        },
{
    let visibility = match body.visibility {
        Some(v) => Some(trim(v.as_str()).as_str().to_lowercase()),
        None => None,
    };
    check_patch(visibility, body.is_nsfw)
}

/// The statements that make a change.
pub open spec fn patch_statements(plan: PatchPlan, id: Seq<char>) -> Seq<StatementView> {
    let first = match plan.visibility {
        Some(v) => seq![
            sql(
                "UPDATE gifs SET visibility = $1 WHERE id = $2"@,
                seq![db::txt(v@), db::txt(id)],
            ),
        ],
        None => Seq::empty(),
    };
    let second = match plan.is_nsfw {
        Some(b) => seq![
            sql(
                "UPDATE gifs SET is_nsfw = $1 WHERE id = $2"@,
                seq![crate::storage::sql::ParamView::Bool(b), db::txt(id)],
            ),
        ],
        None => Seq::empty(),
    };
    first + second
}

impl PatchPlan {
    /// The statements that make the change.
    pub fn apply(&self, target: &Mutable) -> (r: Vec<Statement>)
        ensures
            statements(r@) == patch_statements(*self, target.spec_gif().id@),
    {
        let id = target.gif().id.as_str();
        let mut r: Vec<Statement> = Vec::new();
        assert(statements(r@) == Seq::<StatementView>::empty());
        if let Some(v) = &self.visibility {
            let s = db::set_visibility(id, v.as_str());
            r.push(s);
            assert(statements(r@) == seq![s@]);
        }
        let ghost first = statements(r@);
        if let Some(b) = self.is_nsfw {
            let s = db::set_nsfw(id, b);
            let ghost before = r@;
            r.push(s);
            proof {
                assert(statements(r@) == statements(before).push(s@));
                assert(first + seq![s@] == first.push(s@));
            }
        } else {
            assert(first + Seq::<StatementView>::empty() == first);
        }
        r
    }
}

/// The file that is to take another's place: a request to replace must bring one.
pub fn replacement(file: Option<Vec<u8>>) -> (r: Result<Vec<u8>, AppError>)
    ensures
        match file {
            Some(data) => r == Ok::<Vec<u8>, AppError>(data),
            None => r matches Err(e) && e@ == ErrorView::BadRequest("missing file field"@),
        },
{
    match file {
        Some(data) => Ok(data),
        None => Err(AppError::BadRequest("missing file field".to_owned())),
    }
}

/// Says what replacing a GIF's file takes: the row and the renditions get new content under the
/// names they have, so that the id, the file name, the tags, the visibility, the favorites and the
/// use count stay. There is nothing to replace where one of the three renditions is missing.
pub fn replace_file(
    target: &Mutable,
    data: &Vec<u8>,
    made: &Renditions,
    rows: &Vec<GifRendition>,
    config: &Config,
) -> (r: Result<ReplaceOrder, AppError>)
    requires
        made.wf(),
    ensures
        match r {
            Ok(order) => {
                &&& first_named(rows@, "original"@) matches Some(original)
                &&& first_named(rows@, "preview"@) matches Some(preview)
                &&& first_named(rows@, "thumbnail"@) matches Some(thumbnail)
                &&& three_renditions(
                    order.renditions@,
                    original.filename@,
                    preview.filename@,
                    thumbnail.filename@,
                    data@,
                    *made,
                )
                &&& order.id@ == target.spec_gif().id@
                &&& order.uploader_id@ == target.spec_gif().uploader_id@
                &&& order.filename@ == target.spec_gif().filename@
                &&& order.hash@ == hash_of(data@)
                &&& order.frame_count == made.info.frame_count
                &&& order.duration_ms == made.info.duration_ms
                &&& order.global_max == config.storage_max_bytes
                &&& order.per_user_max == config.per_user_storage_bytes
            },
            Err(e) => {
                &&& e@ == ErrorView::NotFound
                &&& {
                    ||| first_named(rows@, "original"@) is None
                    ||| first_named(rows@, "preview"@) is None
                    ||| first_named(rows@, "thumbnail"@) is None
                }
            },
        },
{
    let original = filename_for(rows, "original")?;
    let preview = filename_for(rows, "preview")?;
    let thumbnail = filename_for(rows, "thumbnail")?;
    let renditions = rendition_specs(
        original.as_str(),
        preview.as_str(),
        thumbnail.as_str(),
        data,
        made,
    );
    Ok(
        ReplaceOrder {
            id: target.gif().id.clone(),
            uploader_id: target.gif().uploader_id.clone(),
            filename: target.gif().filename.clone(),
            hash: content_hash(data.as_slice()),
            frame_count: made.info.frame_count,
            duration_ms: made.info.duration_ms,
            renditions,
            global_max: config.storage_max_bytes,
            per_user_max: config.per_user_storage_bytes,
        },
    )
}

/// How a replacement goes on once it is decided: with the GIF whose files are to be overwritten.
pub fn replaced(outcome: ReplaceOutcome) -> (r: Result<Gif, AppError>)
    ensures
        match outcome {
            ReplaceOutcome::QuotaExceeded => r matches Err(e) && e@
                == ErrorView::InsufficientStorage,
            ReplaceOutcome::Duplicate => r matches Err(e) && e@ == ErrorView::Conflict(
                "you already have a GIF with this content"@,
            ),
            ReplaceOutcome::Updated(gif) => r == Ok::<Gif, AppError>(gif),
        },
{
    match outcome {
        ReplaceOutcome::QuotaExceeded => Err(AppError::InsufficientStorage),
        ReplaceOutcome::Duplicate => Err(
            AppError::Conflict("you already have a GIF with this content".to_owned()),
        ),
        ReplaceOutcome::Updated(gif) => Ok(gif),
    }
}

/// The statement that a step of recording the user's selection runs.
pub fn selection_for(target: &Viewable, step: &SelectionStep) -> (r: Option<Statement>)
    ensures
        ({
            let expected = db::selection_statement_of(
                *step,
                target.spec_user().mxid@,
                target.spec_gif().id@,
            );
            match r {
                Some(s) => expected == Some(s@),
                None => expected is None,
            }
        }),
{
    db::selection_statement(step, target.user().mxid.as_str(), target.gif().id.as_str())
}

/// What follows a recorded selection: one more use of the GIF where the selection counts.
pub fn select_gif(target: &Viewable, counts: bool) -> (r: Option<Statement>)
    ensures
        match r {
            Some(s) => counts && s@ == sql(
                "UPDATE gifs SET uses = uses + 1 WHERE id = $1"@,
                seq![db::txt(target.spec_gif().id@)],
            ),
            None => !counts,
        },
{
    if counts {
        Some(db::increment_uses(target.gif().id.as_str()))
    } else {
        None
    }
}

/// A change to a GIF sets what it asks for and nothing else, and leaves every other GIF alone.
pub proof fn law_patching_sets_what_is_asked_for(t: Stored, plan: PatchPlan, id: Seq<char>)
    requires
        t.gifs.contains_key(id),
    ensures
        ({
            let row = t.gifs[id];
            rows_after(t, patch_statements(plan, id)) == Stored {
                gifs: t.gifs.insert(
                    id,
                    GifRow {
                        visibility: match plan.visibility {
                            Some(v) => v@,
                            None => row.visibility,
                        },
                        is_nsfw: match plan.is_nsfw {
                            Some(b) => b,
                            None => row.is_nsfw,
                        },
                        ..row
                    },
                ),
                ..t
            }
        }),
{
    lemma_row_texts();
    let none = Seq::<StatementView>::empty();
    let first = match plan.visibility {
        Some(v) => seq![
            sql(
                "UPDATE gifs SET visibility = $1 WHERE id = $2"@,
                seq![db::txt(v@), db::txt(id)],
            ),
        ],
        None => none,
    };
    let second = match plan.is_nsfw {
        Some(b) => seq![
            sql(
                "UPDATE gifs SET is_nsfw = $1 WHERE id = $2"@,
                seq![ParamView::Bool(b), db::txt(id)],
            ),
        ],
        None => none,
    };
    lemma_rows_on(t, first, second);
    let between = rows_after(t, first);
    if plan.visibility is Some {
        lemma_rows_one(t, first[0]);
    }
    if plan.is_nsfw is Some {
        lemma_rows_one(between, second[0]);
    }
    assert(rows_after(t, patch_statements(plan, id)).gifs =~= t.gifs.insert(
        id,
        rows_after(t, patch_statements(plan, id)).gifs[id],
    ));
}

/// The rendition that is served is the first stored one of the name asked for, and there is none
/// exactly where no stored one has the name.
pub proof fn law_the_first_of_the_name_is_served(rows: Seq<GifRendition>, name: Seq<char>)
    ensures
        first_named(rows, name) is None <==> forall|i: int|
            0 <= i < rows.len() ==> (#[trigger] rows[i]).rendition@ != name,
        first_named(rows, name) matches Some(row) ==> exists|i: int|
            {
                &&& 0 <= i < rows.len()
                &&& #[trigger] rows[i] == row
                &&& row.rendition@ == name
                &&& forall|j: int| 0 <= j < i ==> (#[trigger] rows[j]).rendition@ != name
            },
    decreases rows.len(),
{
    if rows.len() > 0 && rows[0].rendition@ != name {
        let rest = rows.drop_first();
        law_the_first_of_the_name_is_served(rest, name);
        assert forall|i: int| 0 <= i < rest.len() implies rest[i] == #[trigger] rows[i + 1] by {}
        if first_named(rest, name) is None {
            assert forall|i: int| 0 <= i < rows.len() implies (#[trigger] rows[i]).rendition@
                != name by {
                if i > 0 {
                    assert(rest[i - 1] == rows[i]);
                }
            }
        } else {
            let row = first_named(rest, name)->0;
            let i = choose|i: int|
                {
                    &&& 0 <= i < rest.len()
                    &&& #[trigger] rest[i] == row
                    &&& row.rendition@ == name
                    &&& forall|j: int| 0 <= j < i ==> (#[trigger] rest[j]).rendition@ != name
                };
            assert(rows[i + 1] == row);
            assert forall|j: int| 0 <= j < i + 1 implies (#[trigger] rows[j]).rendition@ != name by {
                if j > 0 {
                    assert(rest[j - 1] == rows[j]);
                }
            }
        }
    }
}

/// Deleting a GIF deletes each of its files.
pub proof fn law_every_file_is_deleted(rows: Seq<GifRendition>)
    ensures
        stored_files(rows).len() == rows.len(),
        forall|i: int| 0 <= i < rows.len() ==> #[trigger] stored_files(rows)[i] == rows[i].filename@,
{
}

/// A change is taken exactly where it asks for something, and for no unknown visibility.
pub proof fn law_changes_are_checked(visibility: Option<Seq<char>>, is_nsfw: Option<bool>)
    ensures
        patch_fault(visibility, is_nsfw) is None <==> {
            &&& visibility is Some || is_nsfw is Some
            &&& visibility matches Some(v) ==> v == "shared"@ || v == "private"@
        },
{
}

/// Who may see a GIF, and who may change it: the uploader always; everybody sees what is shared, and
/// an admin may change it. What may not be seen is not found.
pub proof fn law_access_to_a_gif(gif: Gif, user: AuthUser)
    ensures
        for_viewing(Some(gif), user) == if gif.uploader_id@ == user.mxid@ || gif.visibility@
            == "shared"@ {
            Ok::<Gif, ErrorView>(gif)
        } else {
            Err::<Gif, ErrorView>(ErrorView::NotFound)
        },
        for_changing(Some(gif), user) == if gif.uploader_id@ == user.mxid@ || (user.is_admin
            && gif.visibility@ == "shared"@) {
            Ok::<Gif, ErrorView>(gif)
        } else if gif.visibility@ == "shared"@ {
            Err::<Gif, ErrorView>(ErrorView::Forbidden)
        } else {
            Err::<Gif, ErrorView>(ErrorView::NotFound)
        },
        for_viewing(None, user) == Err::<Gif, ErrorView>(ErrorView::NotFound),
        for_changing(None, user) == Err::<Gif, ErrorView>(ErrorView::NotFound),
{
}

/// The original is served where no rendition is asked for, else the one asked for; a visibility is
/// taken in lowercase, without white space at its ends.
pub proof fn law_what_is_asked_for(params: RenditionQuery, body: GifPatch)
    ensures
        params.rendition is None ==> asked_rendition(params) == "original"@,
        params.rendition matches Some(r) ==> asked_rendition(params) == r@,
        body.visibility is None ==> asked_visibility(body) is None,
        body.visibility matches Some(v) ==> asked_visibility(body) == Some(lowercase(trimmed(v@))),
{
}

} // verus!
