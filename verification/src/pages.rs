//! The pages that are made from templates: which template, what goes into it, and what is answered.
use crate::api;
use crate::types::StreamMetadata;
use tera::Context;
use vstd::prelude::*;

verus! {

/// `tera::Context`: the values that a template is filled with, by their names.
#[verifier::external_type_specification]
#[verifier::external_body]
pub struct ExContext(Context);

/// A value that a template is filled with.
pub enum PageValue {
    Text(Seq<char>),
    Flag(bool),
    Number(nat),
}

/// No values.
pub open spec fn no_values() -> Map<Seq<char>, PageValue> {
    Map::empty()
}

/// The values that a `tera::Context` holds, by their names.
pub uninterp spec fn page_values(context: Context) -> Map<Seq<char>, PageValue>;

/// `Context::new`: no values.
pub assume_specification[ Context::new ]() -> (r: Context)
    ensures
        page_values(r) == no_values(),
;

/// `Context::insert` of a text: the name stands for that text, and all others as before.
#[verifier::external_body]
pub(crate) fn put_text(context: &mut Context, name: &str, value: &str)
    ensures
        page_values(*final(context)) == page_values(*old(context)).insert(
            name@,
            PageValue::Text(value@),
        ),
{
    context.insert(name, value);
}

/// `Context::insert` of a flag: the name stands for that flag, and all others as before.
#[verifier::external_body]
pub(crate) fn put_flag(context: &mut Context, name: &str, value: bool)
    ensures
        page_values(*final(context)) == page_values(*old(context)).insert(
            name@,
            PageValue::Flag(value),
        ),
{
    context.insert(name, &value);
}

/// `Context::insert` of a number: the name stands for that number, and all others as before.
#[verifier::external_body]
pub(crate) fn put_number(context: &mut Context, name: &str, value: usize)
    ensures
        page_values(*final(context)) == page_values(*old(context)).insert(
            name@,
            PageValue::Number(value as nat),
        ),
{
    context.insert(name, &value);
}

/// A page that is made from a template.
#[derive(Clone, Copy, Debug, PartialEq, Eq, Structural)]
pub enum Page {
    /// The page that one starts with.
    Index,
    /// The streams, as cards.
    StreamCards,
    /// How many streams and viewers there are.
    StatsCards,
}

/// The name of the template of a page.
pub open spec fn template_name(page: Page) -> Seq<char> {
    match page {
        Page::Index => "index.html"@,
        Page::StreamCards => "partials/stream_cards.html"@,
        Page::StatsCards => "partials/stats_cards.html"@,
    }
}

/// The name of the template of a page.
pub fn template_of(page: Page) -> (r: &'static str)
    ensures
        r@ == template_name(page),
{
    match page {
        Page::Index => "index.html",
        Page::StreamCards => "partials/stream_cards.html",
        Page::StatsCards => "partials/stats_cards.html",
    }
}

/// An answer: its HTTP status, and its body.
pub struct PageReply {
    pub status: u16,
    pub body: String,
}

/// Whether an answer is the one for what rendering a page gave: the page, or why there is none.
pub open spec fn answers(r: PageReply, rendered: Result<String, String>) -> bool {
    match rendered {
        Ok(text) => r.status == 200 && r.body@ == text@,
        Err(error) => r.status == 500 && r.body@ == "Template error: "@ + error@,
    }
}

/// What is answered for a page: the page, or why there is none.
pub fn page_reply(rendered: Result<String, String>) -> (r: PageReply)
    ensures
        answers(r, rendered),
{
    match rendered {
        Ok(text) => PageReply { status: 200, body: text },
        Err(error) => {
            let mut body: String = "Template error: ".to_owned();
            body.append(error.as_str());
            PageReply { status: 500, body }
        },
    }
}

/// What stands on the page about the number of streams and viewers.
pub open spec fn stats_values(count: nat, viewers: nat) -> Map<Seq<char>, PageValue> {
    no_values().insert(
        "active_stream_count"@,
        PageValue::Number(count),
    ).insert("total_viewers"@, PageValue::Number(viewers))
}

/// What stands on the page that one starts with.
pub open spec fn index_values(
    disable_registration: bool,
    count: nat,
    viewers: nat,
) -> Map<Seq<char>, PageValue> {
    stats_values(count, viewers).insert(
        "title"@,
        PageValue::Text("Castr \u{2014} RTMP Live Webcam Streaming Hub"@),
    ).insert("disable_registration"@, PageValue::Flag(disable_registration))
}

/// The values of the page about the number of streams and viewers; none where the viewers are too
/// many to be counted.
pub fn stats_context(list: &Vec<StreamMetadata>) -> (r: Option<Context>)
    ensures
        match r {
            Some(c) => {
                let n = api::viewers(api::meta_views(list@));
                n <= usize::MAX && page_values(c) == stats_values(list@.len(), n)
            },
            None => api::viewers(api::meta_views(list@)) > usize::MAX,
        },
{
    match api::total_viewers(list) {
        Some(total) => {
            let mut context: Context = Context::new();
            put_number(&mut context, "active_stream_count", list.len());
            put_number(&mut context, "total_viewers", total);
            Some(context)
        },
        None => None,
    }
}

/// The values of the page that one starts with; none where the viewers are too many to be counted.
pub fn index_context(list: &Vec<StreamMetadata>, disable_registration: bool) -> (r: Option<Context>)
    ensures
        match r {
            Some(c) => {
                let n = api::viewers(api::meta_views(list@));
                n <= usize::MAX && page_values(c) == index_values(
                    disable_registration,
                    list@.len(),
                    n,
                )
            },
            None => api::viewers(api::meta_views(list@)) > usize::MAX,
        },
{
    match stats_context(list) {
        Some(context) => {
            let mut context: Context = context;
            put_text(
                &mut context,
                "title",
                "Castr \u{2014} RTMP Live Webcam Streaming Hub",
            );
            put_flag(&mut context, "disable_registration", disable_registration);
            Some(context)
        },
        None => None,
    }
}

} // verus!
