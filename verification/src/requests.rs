//! What the client sends to the backend, and what it reads in the replies.

use vstd::prelude::*;
use crate::json;
use crate::json::Json;
use crate::text;

verus! {

broadcast use {
    vstd::seq::group_seq_axioms,
    vstd::string::group_string_axioms,
    json::fields_push,
    json::fields_empty,
    json::values_push,
    json::values_empty,
};

/// A request for a thread, in a workspace where one is given.
pub open spec fn thread_request(title: Seq<char>, workspace: Option<Seq<char>>) -> json::JsonView {
    let o = json::no_entries().push(("title"@, json::JsonView::Str(title)));
    json::JsonView::Obj(
        match workspace {
            Some(w) => o.push(("workspace_id"@, json::JsonView::Str(w))),
            None => o,
        },
    )
}

/// A request for a thread.
pub fn thread_body(title: &str, workspace: &Option<String>) -> (r: Json)
    ensures
        r@ == thread_request(title@, text::opt_view(*workspace)),
{
    let mut o = json::no_fields();
    json::put_text(&mut o, "title", title);
    if let Some(w) = workspace {
        json::put_text(&mut o, "workspace_id", w);
    }
    Json::Obj(o)
}

/// A request for a workspace.
pub fn workspace_body(name: &str) -> (r: Json)
    ensures
        r@ == json::JsonView::Obj(json::no_entries().push(("name"@, json::JsonView::Str(name@)))),
{
    let mut o = json::no_fields();
    json::put_text(&mut o, "name", name);
    Json::Obj(o)
}

/// A request to attach a template, with values for its variables.
pub fn attach_body(slug: &str, variables: Json) -> (r: Json)
    ensures
        r@ == json::JsonView::Obj(
            json::no_entries().push(("template_slug"@, json::JsonView::Str(slug@))).push(
                ("variables"@, variables@),
            ),
        ),
{
    let mut o = json::no_fields();
    json::put_text(&mut o, "template_slug", slug);
    json::put(&mut o, "variables", variables);
    Json::Obj(o)
}

/// A request for a workflow of one's own.
pub fn create_workflow_body(name: &str, phases: Json, variables: Json) -> (r: Json)
    ensures
        r@ == json::JsonView::Obj(
            json::no_entries().push(("name"@, json::JsonView::Str(name@))).push(
                ("phases"@, phases@),
            ).push(("variables"@, variables@)),
        ),
{
    let mut o = json::no_fields();
    json::put_text(&mut o, "name", name);
    json::put(&mut o, "phases", phases);
    json::put(&mut o, "variables", variables);
    Json::Obj(o)
}

/// A request to change a workflow.
pub fn edit_workflow_body(name: &str, phases: Json) -> (r: Json)
    ensures
        r@ == json::JsonView::Obj(
            json::no_entries().push(("name"@, json::JsonView::Str(name@))).push(
                ("phases"@, phases@),
            ),
        ),
{
    let mut o = json::no_fields();
    json::put_text(&mut o, "name", name);
    json::put(&mut o, "phases", phases);
    Json::Obj(o)
}

/// A request to keep a workflow as a template.
pub fn save_template_body(name: &str, description: &str, icon: &str) -> (r: Json)
    ensures
        r@ == json::JsonView::Obj(
            json::no_entries().push(("name"@, json::JsonView::Str(name@))).push(
                ("description"@, json::JsonView::Str(description@)),
            ).push(("icon"@, json::JsonView::Str(icon@))),
        ),
{
    let mut o = json::no_fields();
    json::put_text(&mut o, "name", name);
    json::put_text(&mut o, "description", description);
    json::put_text(&mut o, "icon", icon);
    Json::Obj(o)
}

/// A request to start again from a phase.
pub fn restart_body(phase_key: &str) -> (r: Json)
    ensures
        r@ == json::JsonView::Obj(
            json::no_entries().push(("phase_key"@, json::JsonView::Str(phase_key@))),
        ),
{
    let mut o = json::no_fields();
    json::put_text(&mut o, "phase_key", phase_key);
    Json::Obj(o)
}

/// The slug of a template that was kept.
pub fn saved_slug(reply: &Json) -> (r: String)
    ensures
        r@ == json::text_field(reply@, "templateSlug"@),
{
    reply.get_text("templateSlug")
}

/// The backend says that it did as it was told.
pub open spec fn says_success(reply: json::JsonView) -> bool {
    json::field(reply, "success"@) == Some(json::JsonView::Bool(true))
}

/// The backend says that it did as it was told.
pub fn succeeded(reply: &Json) -> (r: bool)
    ensures
        r == says_success(reply@),
{
    match reply.get("success") {
        Some(j) => match j {
            Json::Bool(b) => *b,
            _ => false,
        },
        None => false,
    }
}

} // verus!
