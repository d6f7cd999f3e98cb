//! Requests to be sent over HTTP, and what became of them.

use crate::json;
use crate::json::Json;
use crate::text;
use crate::text::clone_opt;
use vstd::prelude::*;

verus! {

// ---------------------------------------------------------------------
// Failures
// ---------------------------------------------------------------------

/// Why something could not be done.
#[derive(Debug)]
pub struct Failure {
    pub message: String,
    /// What lay behind it.
    pub cause: Option<String>,
}

#[verifier::ext_equal]
pub struct FailureView {
    pub message: Seq<char>,
    pub cause: Option<Seq<char>>,
}

impl View for Failure {
    type V = FailureView;

    open spec fn view(&self) -> FailureView {
        FailureView { message: self.message@, cause: text::opt_text(self.cause) }
    }
}

impl Clone for Failure {
    fn clone(&self) -> (r: Self)
        ensures
            r@ == self@,
    {
        Failure { message: self.message.clone(), cause: clone_opt(&self.cause) }
    }
}

/// A failure with nothing known behind it.
pub open spec fn plain(message: Seq<char>) -> FailureView {
    FailureView { message, cause: None }
}

/// A failure with a cause.
pub open spec fn caused(message: Seq<char>, cause: Seq<char>) -> FailureView {
    FailureView { message, cause: Some(cause) }
}

/// A failure in one line: the message, and the cause behind a colon.
pub open spec fn one_line(f: FailureView) -> Seq<char> {
    match f.cause {
        Some(c) => f.message + ": "@ + c,
        None => f.message,
    }
}

impl Failure {
    /// A failure with nothing known behind it.
    pub fn new(message: &str) -> (r: Self)
        ensures
            r@ == plain(message@),
    {
        Failure { message: message.to_owned(), cause: None }
    }

    /// A failure with a cause.
    pub fn because(message: &str, cause: &str) -> (r: Self)
        ensures
            r@ == caused(message@, cause@),
    {
        Failure { message: message.to_owned(), cause: Some(cause.to_owned()) }
    }

    /// The failure in one line, with its cause.
    pub fn one_line(&self) -> (r: String)
        ensures
            r@ == one_line(self@),
    {
        let mut r = self.message.clone();
        if let Some(c) = &self.cause {
            r.append(": ");
            r.append(c.as_str());
        }
        r
    }
}

/// What a result that may be a failure says.
pub open spec fn said(r: Result<String, Failure>) -> Result<Seq<char>, FailureView> {
    match r {
        Ok(s) => Ok(s@),
        Err(f) => Err(f@),
    }
}

// ---------------------------------------------------------------------
// Requests
// ---------------------------------------------------------------------

#[derive(Debug, Clone, Copy, PartialEq, Eq, Structural)]
pub enum Method {
    Get,
    Post,
}

/// What goes along with a request.
#[derive(Debug)]
pub enum Body {
    Empty,
    /// Fields, as a web form sends them.
    Form(Vec<(String, String)>),
    Json(Json),
}

#[verifier::ext_equal]
pub enum BodyView {
    Empty,
    Form(Seq<(Seq<char>, Seq<char>)>),
    Json(json::JsonView),
}

impl View for Body {
    type V = BodyView;

    open spec fn view(&self) -> BodyView {
        match *self {
            Body::Empty => BodyView::Empty,
            Body::Form(fields) => BodyView::Form(text::pairs(fields@)),
            Body::Json(j) => BodyView::Json(j@),
        }
    }
}

/// A request to be sent.
#[derive(Debug)]
pub struct HttpRequest {
    pub method: Method,
    pub url: String,
    /// Parameters to be added to the address.
    pub query: Vec<(String, String)>,
    pub headers: Vec<(String, String)>,
    /// A token for bearer authentication.
    pub bearer: Option<String>,
    pub body: Body,
    pub timeout_secs: u64,
}

#[verifier::ext_equal]
pub struct HttpView {
    pub method: Method,
    pub url: Seq<char>,
    pub query: Seq<(Seq<char>, Seq<char>)>,
    pub headers: Seq<(Seq<char>, Seq<char>)>,
    pub bearer: Option<Seq<char>>,
    pub body: BodyView,
    pub timeout_secs: u64,
}

impl View for HttpRequest {
    type V = HttpView;

    open spec fn view(&self) -> HttpView {
        HttpView {
            method: self.method,
            url: self.url@,
            query: text::pairs(self.query@),
            headers: text::pairs(self.headers@),
            bearer: text::opt_text(self.bearer),
            body: self.body@,
            timeout_secs: self.timeout_secs,
        }
    }
}

/// Adds a pair of texts to a list.
pub fn add_pair(list: &mut Vec<(String, String)>, name: &str, value: &str)
    ensures
        text::pairs(final(list)@) == text::pairs(old(list)@).push((name@, value@)),
{
    list.push((name.to_owned(), value.to_owned()));
    assert(text::pairs(list@) =~= text::pairs(old(list)@).push((name@, value@)));
}

/// An empty list of pairs.
pub fn no_pairs() -> (r: Vec<(String, String)>)
    ensures
        text::pairs(r@) == Seq::<(Seq<char>, Seq<char>)>::empty(),
{
    let r: Vec<(String, String)> = Vec::new();
    assert(text::pairs(r@) =~= Seq::<(Seq<char>, Seq<char>)>::empty());
    r
}

// ---------------------------------------------------------------------
// Replies
// ---------------------------------------------------------------------

/// What a server answered.
#[derive(Debug)]
pub struct Reply {
    pub status: u16,
    /// The status with its standard phrase, such as `404 Not Found`.
    pub status_line: String,
    /// The body, or nothing where it could not be read.
    pub body: String,
    /// The texts that the body holds where the service's documentation puts
    /// translations, or why the body could not be read that way.
    pub lists: Result<Vec<Vec<String>>, String>,
}

#[verifier::ext_equal]
pub struct ReplyView {
    pub status: u16,
    pub status_line: Seq<char>,
    pub body: Seq<char>,
    pub lists: Result<Seq<Seq<Seq<char>>>, Seq<char>>,
}

/// What lists of texts say.
pub open spec fn lists_view(lists: Result<Vec<Vec<String>>, String>) -> Result<
    Seq<Seq<Seq<char>>>,
    Seq<char>,
> {
    match lists {
        Ok(v) => Ok(v@.map_values(|l: Vec<String>| text::texts(l@))),
        Err(e) => Err(e@),
    }
}

impl View for Reply {
    type V = ReplyView;

    open spec fn view(&self) -> ReplyView {
        ReplyView {
            status: self.status,
            status_line: self.status_line@,
            body: self.body@,
            lists: lists_view(self.lists),
        }
    }
}

/// What became of a request.
#[derive(Debug)]
pub enum Exchange {
    /// No client could be set up.
    NoClient(String),
    /// The request could not be sent, or no answer came.
    NotSent(String),
    Answered(Reply),
}

#[verifier::ext_equal]
pub enum ExchangeView {
    NoClient(Seq<char>),
    NotSent(Seq<char>),
    Answered(ReplyView),
}

impl View for Exchange {
    type V = ExchangeView;

    open spec fn view(&self) -> ExchangeView {
        match *self {
            Exchange::NoClient(e) => ExchangeView::NoClient(e@),
            Exchange::NotSent(e) => ExchangeView::NotSent(e@),
            Exchange::Answered(r) => ExchangeView::Answered(r@),
        }
    }
}

/// Whether a status says that the request succeeded.
pub open spec fn is_success(status: u16) -> bool {
    200 <= status < 300
}

/// What a server's refusal is reported as.
pub open spec fn refusal(who: Seq<char>, r: ReplyView) -> Seq<char> {
    who + " returned HTTP "@ + r.status_line + ": "@ + r.body
}

/// The reply to a request that succeeded. `not_sent` reports a request that
/// got no answer, `who` names the server where it refused.
pub open spec fn accepted(x: ExchangeView, not_sent: Seq<char>, who: Seq<char>) -> Result<
    ReplyView,
    FailureView,
> {
    match x {
        ExchangeView::NoClient(e) => Err(plain(e)),
        ExchangeView::NotSent(e) => Err(caused(not_sent, e)),
        ExchangeView::Answered(r) => if is_success(r.status) {
            Ok(r)
        } else {
            Err(plain(refusal(who, r)))
        },
    }
}

/// Reports a server's refusal.
pub fn refusal_text(who: &str, reply: &Reply) -> (r: String)
    ensures
        r@ == refusal(who@, reply@),
{
    let mut r = who.to_owned();
    r.append(" returned HTTP ");
    r.append(reply.status_line.as_str());
    r.append(": ");
    r.append(reply.body.as_str());
    r
}

/// The reply to a request that succeeded, or the failure to report.
pub fn accept<'a>(x: &'a Exchange, not_sent: &str, who: &str) -> (r: Result<&'a Reply, Failure>)
    ensures
        (match r {
            Ok(reply) => accepted(x@, not_sent@, who@) == Ok::<ReplyView, FailureView>(reply@),
            Err(f) => accepted(x@, not_sent@, who@) == Err::<ReplyView, FailureView>(f@),
        }),
{
    match x {
        Exchange::NoClient(e) => Err(Failure::new(e.as_str())),
        Exchange::NotSent(e) => Err(Failure::because(not_sent, e.as_str())),
        Exchange::Answered(reply) => {
            if 200 <= reply.status && reply.status < 300 {
                Ok(reply)
            } else {
                let m = refusal_text(who, reply);
                Err(Failure::new(m.as_str()))
            }
        },
    }
}

/// The first text of the first list; nothing if there is none.
pub open spec fn first_text(lists: Seq<Seq<Seq<char>>>) -> Seq<char> {
    if lists.len() > 0 && lists[0].len() > 0 {
        lists[0][0]
    } else {
        Seq::<char>::empty()
    }
}

/// The translation among the texts of a reply: the first text of the first
/// list.
pub fn extract_translation(lists: &Vec<Vec<String>>) -> (r: String)
    ensures
        r@ == first_text(lists@.map_values(|l: Vec<String>| text::texts(l@))),
{
    if lists.len() > 0 && lists[0].len() > 0 {
        lists[0][0].clone()
    } else {
        let r = String::new();
        assert(r@ =~= Seq::<char>::empty());
        r
    }
}

/// The translation that a reply which succeeded holds; `shape` reports a
/// body that has another form than it should.
pub open spec fn listed(r: ReplyView, shape: Seq<char>) -> Result<Seq<char>, FailureView> {
    match r.lists {
        Ok(lists) => Ok(first_text(lists)),
        Err(e) => Err(caused(shape, e)),
    }
}

/// The translation that a reply which succeeded holds.
pub fn listed_translation(reply: &Reply, shape: &str) -> (r: Result<String, Failure>)
    ensures
        said(r) == listed(reply@, shape@),
{
    match &reply.lists {
        Ok(lists) => Ok(extract_translation(lists)),
        Err(e) => Err(Failure::because(shape, e.as_str())),
    }
}

/// The first text of the first list is found where there is one.
pub proof fn lemma_first_text(a: Reply)
    ensures
        a.lists matches Ok(l) ==> a@.lists matches Ok(v) && (if l@.len() > 0 && l@[0]@.len() > 0 {
            first_text(v) == l@[0]@[0]@
        } else {
            first_text(v).len() == 0
        }),
{
    if let Ok(l) = a.lists {
        let v = l@.map_values(|x: Vec<String>| text::texts(x@));
        assert(a@.lists == Ok::<Seq<Seq<Seq<char>>>, Seq<char>>(v));
        if l@.len() > 0 {
            assert(v[0] == text::texts(l@[0]@));
        }
    }
}

/// A failure says what it was made of.
pub proof fn law_new_failure(message: &str, f: Failure)
    requires
        call_ensures(Failure::new, (message,), f),
    ensures
        f.message@ == message@,
        f.cause is None,
{
}

/// A failure with a cause says what it was made of.
pub proof fn law_caused_failure(message: &str, cause: &str, f: Failure)
    requires
        call_ensures(Failure::because, (message, cause), f),
    ensures
        f.message@ == message@,
        f.cause matches Some(c) && c@ == cause@,
{
}

/// A failure is written in one line, with its cause behind a colon.
pub proof fn law_failure_in_one_line(f: &Failure, line: String)
    requires
        call_ensures(Failure::one_line, (f,), line),
    ensures
        f.cause is None ==> line@ == f.message@,
        f.cause matches Some(c) ==> line@ == f.message@ + ": "@ + c@,
{
}

/// A copy of a failure says the same.
pub proof fn law_copied_failure(f: &Failure, copy: Failure)
    requires
        call_ensures(Failure::clone, (f,), copy),
    ensures
        copy.message@ == f.message@,
        text::opt_text(copy.cause) == text::opt_text(f.cause),
{
}

/// An answer is accepted if its status lies between 200 and 299, and then it
/// is handed on as it came; a refusal is reported with the server's name, its
/// status and its body; what did not get that far with its reason.
pub proof fn law_answer_is_accepted_or_reported(
    x: &Exchange,
    not_sent: &str,
    who: &str,
    r: Result<&Reply, Failure>,
)
    requires
        call_ensures(accept, (x, not_sent, who), r),
    ensures
        r is Ok <==> (*x matches Exchange::Answered(a) && 200 <= a.status < 300),
        r matches Ok(reply) ==> (*x matches Exchange::Answered(a) && reply@ == a@),
        *x matches Exchange::Answered(a) ==> (!(200 <= a.status < 300) ==> (r matches Err(f)
            && f.cause is None && f.message@ == who@ + " returned HTTP "@ + a.status_line@ + ": "@
            + a.body@)),
        *x matches Exchange::NotSent(e) ==> (r matches Err(f) && f.message@ == not_sent@
            && text::opt_text(f.cause) == Some(e@)),
        *x matches Exchange::NoClient(e) ==> (r matches Err(f) && f.message@ == e@ && f.cause is None),
{
}

/// The translation in an answer is the first text of its first list, and
/// nothing where there is none; an answer of another form is reported.
pub proof fn law_first_text_is_the_translation(
    reply: &Reply,
    shape: &str,
    r: Result<String, Failure>,
)
    requires
        call_ensures(listed_translation, (reply, shape), r),
    ensures
        reply.lists matches Ok(l) ==> r is Ok && (if l@.len() > 0 && l@[0]@.len() > 0 {
            r->Ok_0@ == l@[0]@[0]@
        } else {
            r->Ok_0@.len() == 0
        }),
        reply.lists matches Err(e) ==> (r matches Err(f) && f.message@ == shape@ && text::opt_text(
            f.cause,
        ) == Some(e@)),
{
    lemma_first_text(*reply);
}

/// A pair is added behind the others.
pub proof fn law_pair_is_added(list: &mut Vec<(String, String)>, name: &str, value: &str)
    requires
        call_ensures(add_pair, (list, name, value), ()),
    ensures
        final(list)@.len() == old(list)@.len() + 1,
        final(list)@.last().0@ == name@,
        final(list)@.last().1@ == value@,
        forall|i: int|
            0 <= i < old(list)@.len() ==> (#[trigger] final(list)@[i]).0@ == old(list)@[i].0@
                && final(list)@[i].1@ == old(list)@[i].1@,
{
    let a = text::pairs(old(list)@);
    let b = text::pairs(final(list)@);
    assert(b.len() == a.len() + 1);
    assert(b[a.len() as int] == (name@, value@));
    assert forall|i: int| 0 <= i < old(list)@.len() implies (#[trigger] final(list)@[i]).0@
        == old(list)@[i].0@ && final(list)@[i].1@ == old(list)@[i].1@ by {
        assert(b[i] == a[i]);
    }
}

/// A refusal names the server, its status and its body.
pub proof fn law_refusal_text(who: &str, reply: &Reply, r: String)
    requires
        call_ensures(refusal_text, (who, reply), r),
    ensures
        r@ == who@ + " returned HTTP "@ + reply.status_line@ + ": "@ + reply.body@,
{
}

/// The translation among lists of texts is the first of the first list.
pub proof fn law_extract_translation(lists: &Vec<Vec<String>>, r: String)
    requires
        call_ensures(extract_translation, (lists,), r),
    ensures
        lists@.len() > 0 && lists@[0]@.len() > 0 ==> r@ == lists@[0]@[0]@,
        lists@.len() == 0 || lists@[0]@.len() == 0 ==> r@.len() == 0,
{
    let v = lists@.map_values(|x: Vec<String>| text::texts(x@));
    if lists@.len() > 0 {
        assert(v[0] == text::texts(lists@[0]@));
    }
}

/// A new list of pairs is empty.
pub proof fn law_no_pairs(r: Vec<(String, String)>)
    requires
        call_ensures(no_pairs, (), r),
    ensures
        r@.len() == 0,
{
    assert(text::pairs(r@).len() == r@.len());
}

} // verus!
