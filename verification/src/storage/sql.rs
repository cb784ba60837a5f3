//! SQL statements with their parameters, and the conditions that decide which GIFs are listed.

use vstd::prelude::*;

use crate::auth::{is_shared, AuthUser};
use crate::models::Gif;
use crate::text::{
    law_one_character_is_taken_out, other_than, remove_char, texts, without_char,
};

verus! {

/// A value that a statement is run with.
#[derive(Debug)]
pub enum Param {
    Text(String),
    Texts(Vec<String>),
    Int(i32),
    BigInt(i64),
    Bool(bool),
}

/// The mathematical content of a [`Param`].
#[verifier::ext_equal]
pub enum ParamView {
    Text(Seq<char>),
    Texts(Seq<Seq<char>>),
    Int(i32),
    BigInt(i64),
    Bool(bool),
}

impl View for Param {
    type V = ParamView;

    open spec fn view(&self) -> ParamView {
        match self {
            Param::Text(s) => ParamView::Text(s@),
            Param::Texts(v) => ParamView::Texts(texts(v@)),
            Param::Int(n) => ParamView::Int(*n),
            Param::BigInt(n) => ParamView::BigInt(*n),
            Param::Bool(b) => ParamView::Bool(*b),
        }
    }
}

/// A statement: its text, and the values of its placeholders `$1`, `$2`, ... in order.
#[derive(Debug)]
pub struct Statement {
    pub text: String,
    pub params: Vec<Param>,
}

/// The mathematical content of a [`Statement`].
#[verifier::ext_equal]
pub struct StatementView {
    pub text: Seq<char>,
    pub params: Seq<ParamView>,
}

/// The values that a list of parameters holds.
pub open spec fn values(params: Seq<Param>) -> Seq<ParamView> {
    params.map_values(|p: Param| p@)
}

impl View for Statement {
    type V = StatementView;

    open spec fn view(&self) -> StatementView {
        StatementView { text: self.text@, params: values(self.params@) }
    }
}

/// What a list of statements holds.
pub open spec fn statements(v: Seq<Statement>) -> Seq<StatementView> {
    v.map_values(|s: Statement| s@)
}

/// A statement of this text, with these values.
pub open spec fn sql(text: Seq<char>, params: Seq<ParamView>) -> StatementView {
    StatementView { text, params }
}

impl Statement {
    /// A statement without values.
    pub fn new(text: String) -> (r: Statement)
        ensures
            r@ == sql(text@, Seq::empty()),
    {
        let r = Statement { text, params: Vec::new() };
        assert(values(r.params@) == Seq::<ParamView>::empty());
        r
    }

    /// The statement with one more value.
    pub fn bind(self, p: Param) -> (r: Statement)
        ensures
            r@ == sql(self@.text, self@.params.push(p@)),
    {
        let mut params = self.params;
        let ghost before = params@;
        params.push(p);
        assert(values(params@) == values(before).push(p@));
        Statement { text: self.text, params }
    }

    /// The statement with one more text value.
    pub fn text(self, s: &str) -> (r: Statement)
        ensures
            r@ == sql(self@.text, self@.params.push(ParamView::Text(s@))),
    {
        self.bind(Param::Text(s.to_owned()))
    }

    /// The statement with one more 64-bit value.
    pub fn big(self, n: i64) -> (r: Statement)
        ensures
            r@ == sql(self@.text, self@.params.push(ParamView::BigInt(n))),
    {
        self.bind(Param::BigInt(n))
    }

    /// The statement with one more 32-bit value.
    pub fn small(self, n: i32) -> (r: Statement)
        ensures
            r@ == sql(self@.text, self@.params.push(ParamView::Int(n))),
    {
        self.bind(Param::Int(n))
    }

    /// The statement with one more truth value.
    pub fn flag(self, b: bool) -> (r: Statement)
        ensures
            r@ == sql(self@.text, self@.params.push(ParamView::Bool(b))),
    {
        self.bind(Param::Bool(b))
    }
}

/// A condition on a row of the table of GIFs and a viewer.
pub enum Filter {
    /// The viewer uploaded the GIF.
    Own,
    /// The GIF is shared.
    Shared,
    /// The GIF is flagged NSFW.
    Nsfw,
    /// The viewer has hidden the GIF.
    Hidden,
    Not(Box<Filter>),
    And(Box<Filter>, Box<Filter>),
    Or(Box<Filter>, Box<Filter>),
}

/// A row of the table of GIFs, as far as conditions look at it, with the users who have hidden
/// the GIF.
#[verifier::ext_equal]
pub struct Row {
    pub uploader: Seq<char>,
    pub visibility: Seq<char>,
    pub is_nsfw: bool,
    pub hidden_by: Set<Seq<char>>,
}

/// The row that stores a GIF.
pub open spec fn row_of(gif: Gif, hidden_by: Set<Seq<char>>) -> Row {
    Row {
        uploader: gif.uploader_id@,
        visibility: gif.visibility@,
        is_nsfw: gif.is_nsfw,
        hidden_by,
    }
}

/// The condition as it is written in SQL. `alias` is the name of the table of GIFs, `param` the
/// placeholder of the viewer. Only alternatives stand in brackets: nothing but a single condition is
/// ever negated.
pub open spec fn written(f: Filter, alias: Seq<char>, param: Seq<char>) -> Seq<char>
    decreases f,
{
    match f {
        Filter::Own => alias + ".uploader_id = "@ + param,
        Filter::Shared => alias + ".visibility = 'shared'"@,
        Filter::Nsfw => alias + ".is_nsfw"@,
        Filter::Hidden => "EXISTS (SELECT 1 FROM hidden h WHERE h.gif_id = "@ + alias
            + ".id AND h.mxid = "@ + param + ")"@,
        Filter::Not(a) => "NOT "@ + written(*a, alias, param),
        Filter::And(a, b) => written(*a, alias, param) + " AND "@ + written(*b, alias, param),
        Filter::Or(a, b) => "("@ + written(*a, alias, param) + " OR "@ + written(*b, alias, param)
            + ")"@,
    }
}

/// What the condition means.
pub open spec fn admits(f: Filter, row: Row, viewer: Seq<char>) -> bool
    decreases f,
{
    match f {
        Filter::Own => row.uploader == viewer,
        Filter::Shared => row.visibility == "shared"@,
        Filter::Nsfw => row.is_nsfw,
        Filter::Hidden => row.hidden_by.contains(viewer),
        Filter::Not(a) => !admits(*a, row, viewer),
        Filter::And(a, b) => admits(*a, row, viewer) && admits(*b, row, viewer),
        Filter::Or(a, b) => admits(*a, row, viewer) || admits(*b, row, viewer),
    }
}

/// Whose GIFs are listed: the viewer's own, or those and the shared ones.
pub open spec fn visibility_filter(mine: bool) -> Filter {
    if mine {
        Filter::Own
    } else {
        Filter::Or(Box::new(Filter::Shared), Box::new(Filter::Own))
    }
}

/// The same, without NSFW GIFs unless they are asked for.
pub open spec fn list_filter(mine: bool, grab_nsfw: bool) -> Filter {
    if grab_nsfw {
        visibility_filter(mine)
    } else {
        Filter::And(
            Box::new(visibility_filter(mine)),
            Box::new(Filter::Not(Box::new(Filter::Nsfw))),
        )
    }
}

/// The same, without GIFs that the viewer has hidden unless they are asked for.
pub open spec fn browse_filter(mine: bool, grab_nsfw: bool, grab_hidden: bool) -> Filter {
    if grab_hidden {
        list_filter(mine, grab_nsfw)
    } else {
        Filter::And(
            Box::new(list_filter(mine, grab_nsfw)),
            Box::new(Filter::Not(Box::new(Filter::Hidden))),
        )
    }
}

/// Whose tags are suggested: those of shared GIFs, and not of NSFW GIFs unless they are asked for.
pub open spec fn suggest_filter(grab_nsfw: bool) -> Filter {
    if grab_nsfw {
        Filter::Shared
    } else {
        Filter::And(Box::new(Filter::Shared), Box::new(Filter::Not(Box::new(Filter::Nsfw))))
    }
}

/// The condition that restricts a listing to visible GIFs: with `mine`, the viewer's own uploads,
/// otherwise shared GIFs and the viewer's own.
pub fn visibility_clause(mine: bool, alias: &str, param: &str) -> (r: String)
    ensures
        r@ == written(visibility_filter(mine), alias@, param@),
{
    let mut own = alias.to_owned();
    own.append(".uploader_id = ");
    own.append(param);
    if mine {
        return own;
    }
    let mut shared = alias.to_owned();
    shared.append(".visibility = 'shared'");
    let mut r = "(".to_owned();
    r.append(shared.as_str());
    r.append(" OR ");
    r.append(own.as_str());
    r.append(")");
    proof {
        assert(written(Filter::Own, alias@, param@) == own@);
        assert(written(Filter::Shared, alias@, param@) == shared@);
    }
    r
}

/// The condition of [`visibility_clause`] and, unless `grab_nsfw`, that the GIF is not NSFW.
pub fn list_filters(mine: bool, grab_nsfw: bool, alias: &str, param: &str) -> (r: String)
    ensures
        r@ == written(list_filter(mine, grab_nsfw), alias@, param@),
{
    let mut r = visibility_clause(mine, alias, param);
    if !grab_nsfw {
        let mut not_nsfw = "NOT ".to_owned();
        let mut nsfw = alias.to_owned();
        nsfw.append(".is_nsfw");
        not_nsfw.append(nsfw.as_str());
        r.append(" AND ");
        r.append(not_nsfw.as_str());
        proof {
            assert(written(Filter::Nsfw, alias@, param@) == nsfw@);
            assert(written(Filter::Not(Box::new(Filter::Nsfw)), alias@, param@) == not_nsfw@);
        }
    }
    r
}

/// What is written behind the other conditions to leave out GIFs that the viewer has hidden:
/// nothing with `grab_hidden`.
pub open spec fn hidden_suffix(grab_hidden: bool, alias: Seq<char>, param: Seq<char>) -> Seq<char> {
    if grab_hidden {
        Seq::empty()
    } else {
        " AND "@ + written(Filter::Not(Box::new(Filter::Hidden)), alias, param)
    }
}

/// The further condition, unless `grab_hidden`, that the viewer has not hidden the GIF.
pub fn hidden_clause(grab_hidden: bool, alias: &str, viewer_param: &str) -> (r: String)
    ensures
        r@ == hidden_suffix(grab_hidden, alias@, viewer_param@),
{
    if grab_hidden {
        return String::new();
    }
    let mut hidden = "EXISTS (SELECT 1 FROM hidden h WHERE h.gif_id = ".to_owned();
    hidden.append(alias);
    hidden.append(".id AND h.mxid = ");
    hidden.append(viewer_param);
    hidden.append(")");
    let mut not_hidden = "NOT ".to_owned();
    not_hidden.append(hidden.as_str());
    let mut r = " AND ".to_owned();
    r.append(not_hidden.as_str());
    proof {
        assert(written(Filter::Hidden, alias@, viewer_param@) == hidden@);
        assert(written(Filter::Not(Box::new(Filter::Hidden)), alias@, viewer_param@)
            == not_hidden@);
    }
    r
}

/// The whole condition of a listing that leaves out hidden GIFs.
pub fn browse_filters(
    mine: bool,
    grab_nsfw: bool,
    grab_hidden: bool,
    alias: &str,
    param: &str,
) -> (r: String)
    ensures
        r@ == written(browse_filter(mine, grab_nsfw, grab_hidden), alias@, param@),
{
    let mut r = list_filters(mine, grab_nsfw, alias, param);
    let hidden = hidden_clause(grab_hidden, alias, param);
    r.append(hidden.as_str());
    proof {
        let list = written(list_filter(mine, grab_nsfw), alias@, param@);
        if grab_hidden {
            assert(list + Seq::<char>::empty() == list);
        } else {
            let not_hidden = written(Filter::Not(Box::new(Filter::Hidden)), alias@, param@);
            assert(list + (" AND "@ + not_hidden) == list + " AND "@ + not_hidden);
        }
    }
    r
}

/// The `LIKE` pattern for what begins with `s`: the wildcards of `s` are taken out.
pub open spec fn prefix_pattern(s: Seq<char>) -> Seq<char> {
    without_char(without_char(s, '%'), '_') + "%"@
}

/// The `LIKE` pattern for what begins with `s`.
pub fn like_prefix(s: &str) -> (r: String)
    ensures
        r@ == prefix_pattern(s@),
{
    let mut r = remove_char(remove_char(s, '%').as_str(), '_');
    r.append("%");
    r
}

/// A listing without `mine` shows a GIF exactly where its viewer may see it and, unless asked
/// for, it is not NSFW.
pub proof fn law_listing_shows_what_is_visible(
    user: AuthUser,
    gif: Gif,
    hidden_by: Set<Seq<char>>,
    grab_nsfw: bool,
)
    ensures
        admits(list_filter(false, grab_nsfw), row_of(gif, hidden_by), user.mxid@) <==> user.sees(
            gif,
        ) && (grab_nsfw || !gif.is_nsfw),
{
    reveal_with_fuel(admits, 4);
}

/// A listing with `mine` shows the viewer's own GIFs alone.
pub proof fn law_mine_is_own(
    user: AuthUser,
    gif: Gif,
    hidden_by: Set<Seq<char>>,
    grab_nsfw: bool,
)
    ensures
        admits(list_filter(true, grab_nsfw), row_of(gif, hidden_by), user.mxid@) <==> user.owns(gif)
            && (grab_nsfw || !gif.is_nsfw),
{
    reveal_with_fuel(admits, 4);
}

/// No listing shows another user's private GIF, to anybody, admin or not.
pub proof fn law_private_is_never_listed(
    user: AuthUser,
    gif: Gif,
    hidden_by: Set<Seq<char>>,
    mine: bool,
    grab_nsfw: bool,
    grab_hidden: bool,
)
    requires
        !is_shared(gif),
        !user.owns(gif),
    ensures
        !admits(
            browse_filter(mine, grab_nsfw, grab_hidden),
            row_of(gif, hidden_by),
            user.mxid@,
        ),
{
    reveal_with_fuel(admits, 6);
}

/// What a viewer has hidden is left out unless asked for, and nothing else is left out for it.
pub proof fn law_hidden_is_left_out(
    user: AuthUser,
    gif: Gif,
    hidden_by: Set<Seq<char>>,
    mine: bool,
    grab_nsfw: bool,
    grab_hidden: bool,
)
    ensures
        admits(browse_filter(mine, grab_nsfw, grab_hidden), row_of(gif, hidden_by), user.mxid@)
            <==> admits(list_filter(mine, grab_nsfw), row_of(gif, hidden_by), user.mxid@) && (
        grab_hidden || !hidden_by.contains(user.mxid@)),
{
    reveal_with_fuel(admits, 3);
}

/// Hiding is per user: what others hide does not change what a viewer sees.
pub proof fn law_hiding_is_per_user(
    user: AuthUser,
    other: AuthUser,
    gif: Gif,
    hidden_by: Set<Seq<char>>,
    mine: bool,
    grab_nsfw: bool,
    grab_hidden: bool,
)
    requires
        user.mxid@ != other.mxid@,
    ensures
        admits(
            browse_filter(mine, grab_nsfw, grab_hidden),
            row_of(gif, hidden_by.insert(other.mxid@)),
            user.mxid@,
        ) == admits(
            browse_filter(mine, grab_nsfw, grab_hidden),
            row_of(gif, hidden_by),
            user.mxid@,
        ),
{
    reveal_with_fuel(admits, 6);
}

/// A tag is never suggested for a private GIF, not even to its uploader, nor for an NSFW GIF unless
/// that is asked for.
pub proof fn law_suggestions_come_from_shared(
    user: AuthUser,
    gif: Gif,
    hidden_by: Set<Seq<char>>,
    grab_nsfw: bool,
)
    ensures
        admits(suggest_filter(grab_nsfw), row_of(gif, hidden_by), user.mxid@) <==> is_shared(gif)
            && (grab_nsfw || !gif.is_nsfw),
{
    reveal_with_fuel(admits, 4);
}

/// The condition lets through, for this viewer, exactly the GIFs that they uploaded and, unless
/// `mine`, the shared ones; of these no NSFW GIF unless `nsfw`, and none that the viewer has hidden
/// unless `hidden`.
pub open spec fn lets_through(
    f: Filter,
    viewer: Seq<char>,
    mine: bool,
    nsfw: bool,
    hidden: bool,
) -> bool {
    forall|row: Row|
        #[trigger] admits(f, row, viewer) <==> {
            &&& row.uploader == viewer || (!mine && row.visibility == "shared"@)
            &&& nsfw || !row.is_nsfw
            &&& hidden || !row.hidden_by.contains(viewer)
        }
}

/// The conditions of the listings let through what the flags of a request say, no more and no less.
pub proof fn law_conditions_follow_the_flags(
    viewer: Seq<char>,
    mine: bool,
    nsfw: bool,
    hidden: bool,
)
    ensures
        lets_through(browse_filter(mine, nsfw, hidden), viewer, mine, nsfw, hidden),
        lets_through(list_filter(mine, nsfw), viewer, mine, nsfw, true),
{
    reveal_with_fuel(admits, 6);
}

/// A search term is a plain prefix: its pattern has one wildcard, at the end.
pub proof fn law_pattern_is_a_prefix(s: Seq<char>)
    ensures
        prefix_pattern(s).last() == '%',
        forall|i: int|
            0 <= i < prefix_pattern(s).len() - 1 ==> {
                &&& #[trigger] prefix_pattern(s)[i] != '%'
                &&& prefix_pattern(s)[i] != '_'
            },
        !s.contains('%') && !s.contains('_') ==> prefix_pattern(s) == s + "%"@,
{
    reveal_strlit("%");
    broadcast use vstd::seq_lib::group_filter_ensures;

    let a = without_char(s, '%');
    let b = without_char(a, '_');
    assert forall|i: int| 0 <= i < b.len() implies b[i] != '%' && b[i] != '_' by {
        a.lemma_filter_contains_rev(other_than('_'), b[i]);
        let j = choose|j: int| 0 <= j < a.len() && a[j] == b[i];
        assert(other_than('%')(a[j]));
        assert(other_than('_')(b[i]));
    }
    if !s.contains('%') && !s.contains('_') {
        lemma_filter_all(s, '%');
        lemma_filter_all(s, '_');
    }
}

/// Nothing is taken out where there is nothing to take out.
proof fn lemma_filter_all(s: Seq<char>, c: char)
    requires
        !s.contains(c),
    ensures
        without_char(s, c) == s,
    decreases s.len(),
{
    reveal(Seq::filter);
    if s.len() > 0 {
        assert forall|d: char| s.drop_last().contains(d) implies s.contains(d) by {
            let j = choose|j: int| 0 <= j < s.drop_last().len() && s.drop_last()[j] == d;
            assert(s[j] == d);
        }
        lemma_filter_all(s.drop_last(), c);
        assert(s.contains(s.last())) by {
            assert(s[s.len() - 1] == s.last());
        }
        assert(s.drop_last().push(s.last()) == s);
    }
}

/// The pattern keeps every character but the wildcards, in order.
pub proof fn law_pattern_keeps_other_characters(s: Seq<char>, c: char)
    ensures
        prefix_pattern(Seq::empty()) == "%"@,
        prefix_pattern(s.push(c)) == if c == '%' || c == '_' {
            prefix_pattern(s)
        } else {
            prefix_pattern(s).drop_last().push(c) + "%"@
        },
{
    reveal_strlit("%");
    law_one_character_is_taken_out(s, c, '%');
    let a = without_char(s, '%');
    law_one_character_is_taken_out(a, c, '_');
    assert(prefix_pattern(s).drop_last() =~= without_char(a, '_'));
    assert(prefix_pattern(Seq::empty()) =~= "%"@);
}

} // verus!
