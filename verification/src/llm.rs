//! The model: how it is addressed, what is sent to it, and how its answer is read.

use crate::effect::{Said, Talk};
use crate::json::{
    as_text, at_index, at_key, count_value, insert_member, item, json_parsed, json_printed,
    json_read, list_value, member, new_object, object_value, print_json, read_json, readable,
    text_value, tree, trees, Parsed, Tree, MAX_DEPTH,
};
use crate::text::{ends, repeated, trim_end_matches, without_tail};
use vstd::prelude::*;
use vstd::string::*;

verus! {

/// How many tokens the model may answer with.
pub const MAX_TOKENS: u64 = 4096;

/// Where requests go, for the base URL of the service.
pub open spec fn endpoint(base_url: Seq<char>) -> Seq<char> {
    without_tail(base_url, "/"@) + "/chat/completions"@
}

/// A message as it is sent.
pub open spec fn sent(m: Said) -> Tree {
    Tree::Fields(
        Map::empty().insert("role"@, Tree::Text(m.role)).insert("content"@, Tree::Text(m.content)),
    )
}

/// What is sent to ask for the next message of `talk`, which the system prompt precedes.
pub open spec fn request(model: Seq<char>, talk: Seq<Said>, system: Seq<char>) -> Tree {
    let all = seq![Said { role: "system"@, content: system }] + talk;
    Tree::Fields(
        Map::empty().insert("model"@, Tree::Text(model)).insert(
            "max_tokens"@,
            Tree::Count(MAX_TOKENS as nat),
        ).insert("messages"@, Tree::List(all.map_values(|m: Said| sent(m)))),
    )
}

/// The text in an answer of the service.
pub open spec fn answer_text(t: Tree) -> Tree {
    at_key(at_key(at_index(at_key(t, "choices"@), 0), "message"@), "content"@)
}

/// What an answer that is JSON says: the text of its first choice, or that it has none.
pub open spec fn answer(t: Tree) -> Result<Seq<char>, Seq<char>> {
    match answer_text(t) {
        Tree::Text(s) => Ok(s),
        _ => Err("bad response: "@ + json_printed(t)),
    }
}

/// What an answer says, given what comes of reading it as JSON.
pub open spec fn reply(parsed: Parsed) -> Result<Seq<char>, Seq<char>> {
    match parsed {
        Parsed::Value(t) => answer(t),
        Parsed::Error(e) => Err("Failed to read JSON: "@ + e),
    }
}

/// Where requests go, for the base URL of the service.
pub fn chat_url(base_url: &str) -> (r: String)
    ensures
        r@ == endpoint(base_url@),
{
    proof {
        reveal_strlit("/");
    }
    let mut r = trim_end_matches(base_url, "/").to_owned();
    r.append("/chat/completions");
    r
}

/// The header that names the key.
pub fn authorization(api_key: &str) -> (r: String)
    ensures
        r@ == "Bearer "@ + api_key@,
{
    let mut r = "Bearer ".to_owned();
    r.append(api_key);
    r
}

/// A message as it is sent.
fn message_value(role: &str, content: &str) -> (r: serde_json::Value)
    ensures
        tree(r) == sent((Said { role: role@, content: content@ })),
{
    let mut m = new_object();
    insert_member(&mut m, "role".to_owned(), text_value(role.to_owned()));
    insert_member(&mut m, "content".to_owned(), text_value(content.to_owned()));
    object_value(m)
}

/// A request can be read back.
proof fn lemma_request_readable(model: Seq<char>, talk: Seq<Said>, system: Seq<char>)
    ensures
        readable(request(model, talk, system), MAX_DEPTH as nat),
{
    let m = request(model, talk, system)->Fields_0;
    let d1 = (MAX_DEPTH - 1) as nat;
    let d2 = (MAX_DEPTH - 2) as nat;
    let d3 = (MAX_DEPTH - 3) as nat;
    let items = m["messages"@]->List_0;
    assert forall|i: int| 0 <= i < items.len() implies readable(#[trigger] items[i], d2) by {
        let f = items[i]->Fields_0;
        assert forall|k: Seq<char>| f.contains_key(k) implies readable(#[trigger] f[k], d3) by {
        }
    }
    assert(readable(Tree::List(items), d1));
    assert forall|k: Seq<char>| m.contains_key(k) implies readable(#[trigger] m[k], d1) by {
    }
}

/// The body of a request for the next message of `talk`. It reads back as the request.
pub fn llm_request(model: &str, talk: &Talk, system: &str) -> (r: String)
    ensures
        r@ == json_printed(request(model@, talk@, system@)),
        json_parsed(r@) == Parsed::Value(request(model@, talk@, system@)),
{
    let ghost all = seq![Said { role: "system"@, content: system@ }] + talk@;
    let mut items: Vec<serde_json::Value> = Vec::new();
    items.push(message_value("system", system));
    let mut i: usize = 0;
    while i < talk.len()
        invariant
            i <= talk@.len(),
            all == seq![Said { role: "system"@, content: system@ }] + talk@,
            items@.len() == i + 1,
            forall|j: int| 0 <= j < items@.len() ==> tree(#[trigger] items@[j]) == sent(all[j]),
        decreases talk@.len() - i,
    {
        let m = talk.get(i);
        assert(all[i + 1] == m@);
        items.push(message_value(m.role.as_str(), m.content.as_str()));
        i = i + 1;
    }
    assert(trees(items@) =~= all.map_values(|m: Said| sent(m)));
    let mut m = new_object();
    insert_member(&mut m, "model".to_owned(), text_value(model.to_owned()));
    insert_member(&mut m, "max_tokens".to_owned(), count_value(MAX_TOKENS));
    insert_member(&mut m, "messages".to_owned(), list_value(items));
    proof {
        lemma_request_readable(model@, talk@, system@);
    }
    print_json(&object_value(m))
}

/// What an answer that is JSON says.
pub fn pick_reply(v: &serde_json::Value) -> (r: Result<String, String>)
    ensures
        crate::effect::result_view(r) == answer(tree(*v)),
{
    let text = as_text(member(member(item(member(v, "choices"), 0), "message"), "content"));
    match text {
        Some(s) => Ok(s.to_owned()),
        None => {
            let mut e = "bad response: ".to_owned();
            e.append(print_json(v).as_str());
            Err(e)
        },
    }
}

/// What the service's answer says.
pub fn llm_reply(body: &[u8]) -> (r: Result<String, String>)
    ensures
        crate::effect::result_view(r) == reply(json_read(body@)),
{
    match read_json(body) {
        Ok(v) => pick_reply(&v),
        Err(e) => {
            let mut message = "Failed to read JSON: ".to_owned();
            message.append(e.as_str());
            Err(message)
        },
    }
}

/// What the model is asked names it, and holds the system prompt and then every message of the
/// conversation, in order.
pub proof fn law_request_holds_the_talk(
    model: Seq<char>,
    talk: Seq<Said>,
    system: Seq<char>,
    i: int,
)
    requires
        0 <= i < talk.len(),
    ensures
        at_key(request(model, talk, system), "model"@) == Tree::Text(model),
        at_index(at_key(request(model, talk, system), "messages"@), 0) == sent(
            Said { role: "system"@, content: system },
        ),
        at_index(at_key(request(model, talk, system), "messages"@), i + 1) == sent(talk[i]),
        at_key(sent(talk[i]), "role"@) == Tree::Text(talk[i].role),
        at_key(sent(talk[i]), "content"@) == Tree::Text(talk[i].content),
{
    reveal_strlit("model");
    reveal_strlit("max_tokens");
    reveal_strlit("messages");
    reveal_strlit("role");
    reveal_strlit("content");
    assert("model"@.len() == 5 && "max_tokens"@.len() == 10 && "messages"@.len() == 8);
    assert("role"@.len() == 4 && "content"@.len() == 7);
}

/// What the model is asked holds the system prompt and the messages of the conversation and
/// nothing more, and allows for 4096 tokens of answer.
pub proof fn law_request_is_bounded(model: Seq<char>, talk: Seq<Said>, system: Seq<char>)
    ensures
        at_key(request(model, talk, system), "messages"@) matches Tree::List(items) && items.len()
            == talk.len() + 1,
        at_key(request(model, talk, system), "max_tokens"@) == Tree::Count(4096),
{
    reveal_strlit("model");
    reveal_strlit("max_tokens");
    reveal_strlit("messages");
    assert("model"@.len() == 5 && "max_tokens"@.len() == 10 && "messages"@.len() == 8);
}

/// Requests go to the same place however many slashes end the base URL.
pub proof fn law_endpoint_ignores_slashes(base: Seq<char>, n: nat)
    requires
        base.len() > 0 ==> base.last() != '/',
    ensures
        endpoint(base + repeated("/"@, n)) == base + "/chat/completions"@,
    decreases n,
{
    reveal_strlit("/");
    let s = base + repeated("/"@, n);
    if n == 0 {
        assert(s =~= base);
        if ends(base, "/"@) {
            assert(base.skip(base.len() - 1)[0] == '/');
        }
    } else {
        law_endpoint_ignores_slashes(base, (n - 1) as nat);
        let front = base + repeated("/"@, (n - 1) as nat);
        assert(s =~= front + "/"@);
        assert(s.take(s.len() - 1) =~= front);
        assert(s.skip(s.len() - 1) =~= "/"@);
    }
}

/// An answer whose first choice is a message with the given text.
pub open spec fn first_choice_says(t: Tree, text: Seq<char>) -> bool {
    &&& t matches Tree::Fields(top)
    &&& top.contains_key("choices"@)
    &&& top["choices"@] matches Tree::List(choices)
    &&& choices.len() > 0
    &&& choices[0] matches Tree::Fields(choice)
    &&& choice.contains_key("message"@)
    &&& choice["message"@] matches Tree::Fields(message)
    &&& message.contains_key("content"@)
    &&& message["content"@] == Tree::Text(text)
}

/// The reply is the text of the first choice, whole, whatever else the answer holds, and there is
/// one just where there is such a text. Else what came is an error that shows it, and so is an
/// answer that is no JSON.
pub proof fn law_first_choice_is_the_reply(t: Tree, text: Seq<char>, error: Seq<char>)
    ensures
        reply(Parsed::Value(t)) == Ok::<Seq<char>, Seq<char>>(text) <==> first_choice_says(t, text),
        reply(Parsed::Value(t)) is Err ==> reply(Parsed::Value(t)) == Err::<Seq<char>, Seq<char>>(
            "bad response: "@ + json_printed(t),
        ),
        reply(Parsed::Error(error)) == Err::<Seq<char>, Seq<char>>("Failed to read JSON: "@ + error),
{
}

} // verus!
