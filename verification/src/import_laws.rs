//! What an imported file leaves in the database.
use vstd::prelude::*;
use crate::db::store_laws::{law_new_messages_come_last, lemma_same_rows};
use crate::db::Tables;
use crate::importer::{
    after_fragment, after_item, after_items, after_step, after_steps, chat_messages, chat_steps,
    chat_title, date_order, node_messages, nodes_messages, steps_of, Fragments, ImportStep,
    Imported, ImportedMessage,
};
use crate::json::{member, JsonTree};
use crate::models::TokenUsage;
use crate::stamps::Draw;
use crate::text::{trimmed, uppercase};

verus! {

/// An item of this kind and this text.
pub open spec fn is_item(item: JsonTree, kind: Seq<char>, text: Seq<char>) -> bool {
    &&& item is Object
    &&& member(item, "type"@) matches Some(JsonTree::Text(k)) && uppercase(k) == kind
    &&& member(item, "content"@) == Some(JsonTree::Text(text))
}

/// A request is a message of the user, a response one of the assistant; what was
/// thought before a response is its reasoning. Each keeps its text, without the
/// white space around it.
pub proof fn law_fragments_become_messages(
    f: Fragments,
    item: JsonTree,
    text: Seq<char>,
    created_at: Seq<char>,
)
    requires
        trimmed(text).len() > 0,
    ensures
        is_item(item, "REQUEST"@, text) ==> {
            let g = after_item(f, item, created_at);
            &&& g.messages.len() == f.messages.len() + 1
            &&& g.messages.drop_last() == f.messages
            &&& g.messages.last().role == "user"@
            &&& g.messages.last().content == trimmed(text)
            &&& g.messages.last().reasoning.len() == 0
            &&& g.messages.last().created_at == created_at
            &&& g.thoughts == f.thoughts
        },
        is_item(item, "RESPONSE"@, text) ==> {
            let g = after_item(f, item, created_at);
            &&& g.messages.len() == f.messages.len() + 1
            &&& g.messages.drop_last() == f.messages
            &&& g.messages.last().role == "assistant"@
            &&& g.messages.last().content == trimmed(text)
            &&& g.messages.last().reasoning == f.thoughts
            &&& g.messages.last().created_at == created_at
            &&& g.thoughts.len() == 0
        },
        is_item(item, "THINK"@, text) ==> {
            let g = after_item(f, item, created_at);
            &&& g.messages == f.messages
            &&& f.thoughts.len() == 0 ==> g.thoughts == trimmed(text)
            &&& f.thoughts.len() > 0 ==> g.thoughts == f.thoughts + "\n"@ + trimmed(text)
        },
{
    reveal_strlit("REQUEST");
    reveal_strlit("RESPONSE");
    reveal_strlit("THINK");
    reveal_strlit("");
    assert("REQUEST"@.len() == 7 && "RESPONSE"@.len() == 8 && "THINK"@.len() == 5);
    let g = after_item(f, item, created_at);
    if g.messages.len() > f.messages.len() {
        assert(g.messages.drop_last() =~= f.messages);
    }
}

/// An item without a text gives nothing.
pub proof fn law_empty_fragments_give_nothing(
    f: Fragments,
    kind: Seq<char>,
    created_at: Seq<char>,
)
    ensures
        after_fragment(f, kind, Seq::empty(), created_at) == f,
        kind != "REQUEST"@ && kind != "RESPONSE"@ && kind != "THINK"@ ==> forall|c: Seq<char>|
            #[trigger] after_fragment(f, kind, c, created_at) == f,
{
}

/// The fragments of a message are taken one after the other.
pub proof fn law_fragments_in_a_row(
    f: Fragments,
    items: Seq<JsonTree>,
    item: JsonTree,
    created_at: Seq<char>,
)
    ensures
        after_items(f, items.push(item), created_at) == after_item(
            after_items(f, items, created_at),
            item,
            created_at,
        ),
        after_items(f, Seq::empty(), created_at) == f,
{
    assert(items.push(item).drop_last() =~= items);
}

/// A message of a chat is dated by when it was written, else by when the chat
/// was changed.
pub proof fn law_messages_are_dated(
    node: JsonTree,
    message: JsonTree,
    item: JsonTree,
    text: Seq<char>,
    fallback: Seq<char>,
)
    requires
        member(node, "message"@) == Some(message),
        message is Object,
        member(message, "fragments"@) == Some(JsonTree::Array(seq![item])),
        is_item(item, "REQUEST"@, text),
        trimmed(text).len() > 0,
    ensures
        node_messages(node, fallback).len() == 1,
        node_messages(node, fallback)[0].role == "user"@,
        node_messages(node, fallback)[0].content == trimmed(text),
        member(message, "inserted_at"@) matches Some(JsonTree::Text(d)) ==> node_messages(
            node,
            fallback,
        )[0].created_at == d,
        member(message, "inserted_at"@) is None ==> node_messages(node, fallback)[0].created_at
            == fallback,
{
    let date = crate::importer::text_or(
        crate::json::text_of_tree(member(message, "inserted_at"@)),
        fallback,
    );
    let none = Fragments { thoughts: Seq::empty(), messages: Seq::empty() };
    law_fragments_in_a_row(none, Seq::empty(), item, date);
    assert(Seq::<JsonTree>::empty().push(item) =~= seq![item]);
    law_fragments_become_messages(none, item, text, date);
}

/// A chat has the messages of all its nodes, and no others.
pub proof fn law_all_messages_are_imported(
    chat: JsonTree,
    nodes: Seq<(Seq<char>, JsonTree)>,
    updated: Seq<char>,
    i: int,
    k: int,
)
    requires
        member(chat, "mapping"@) == Some(JsonTree::Object(nodes)),
        member(chat, "updated_at"@) == Some(JsonTree::Text(updated)),
        0 <= i < nodes.len(),
        0 <= k < node_messages(nodes[i].1, updated).len(),
    ensures
        chat_messages(chat).contains(node_messages(nodes[i].1, updated)[k]),
        chat_messages(chat).len() == nodes_messages(nodes, updated).len(),
{
    lemma_nodes(nodes, updated, i, k);
    lemma_same_rows(nodes_messages(nodes, updated), date_order());
}

proof fn lemma_nodes(nodes: Seq<(Seq<char>, JsonTree)>, fallback: Seq<char>, i: int, k: int)
    requires
        0 <= i < nodes.len(),
        0 <= k < node_messages(nodes[i].1, fallback).len(),
    ensures
        nodes_messages(nodes, fallback).contains(node_messages(nodes[i].1, fallback)[k]),
    decreases nodes.len(),
{
    let front = nodes.drop_last();
    let before = nodes_messages(front, fallback);
    let all = nodes_messages(nodes, fallback);
    let m = node_messages(nodes[i].1, fallback)[k];
    if i < front.len() {
        assert(front[i] == nodes[i]);
        lemma_nodes(front, fallback, i, k);
        assert(all[before.index_of(m)] == m);
    } else {
        assert(all[before.len() + k] == m);
    }
}

/// A chat begins a conversation with its title, and adds its messages to it one
/// by one.
pub proof fn law_chats_become_conversations(chat: JsonTree, title: Seq<char>, i: int)
    requires
        chat is Object,
    ensures
        member(chat, "title"@) == Some(JsonTree::Text(title)) && trimmed(title).len() > 0
            ==> chat_title(chat) == trimmed(title),
        member(chat, "title"@) is None ==> chat_title(chat) == "Imported Chat"@,
        member(chat, "title"@) == Some(JsonTree::Text(title)) && trimmed(title).len() == 0
            ==> chat_title(chat) == "Imported Chat"@,
        chat_steps(chat).len() == chat_messages(chat).len() + 1,
        chat_steps(chat)[0] == ImportStep::<Seq<char>>::Begin(chat_title(chat)),
        0 <= i < chat_messages(chat).len() ==> chat_steps(chat)[i + 1] == ImportStep::<
            Seq<char>,
        >::Add(chat_messages(chat)[i]),
{
    reveal_strlit("");
    let none = Seq::<char>::empty();
    crate::text::law_trimmed_of(none, none, none);
    assert(none + none + none =~= none);
    assert(""@ =~= none);
}

/// The chats of a file are imported one after the other.
pub proof fn law_chats_in_a_row(chats: Seq<JsonTree>, chat: JsonTree)
    ensures
        steps_of(chats.push(chat)) == steps_of(chats) + chat_steps(chat),
        steps_of(Seq::empty()) == Seq::<ImportStep<Seq<char>>>::empty(),
{
    assert(chats.push(chat).drop_last() =~= chats);
}

/// A step that begins a conversation creates it with its title, and the messages
/// that follow go there.
pub proof fn law_beginning_a_chat(s: Imported, title: Seq<char>, draw: Draw)
    requires
        s.error is None,
        !s.tables.has_conversation(draw.id),
        trimmed(title).len() > 0,
    ensures
        ({
            let r = after_step(s, ImportStep::Begin(title), draw);
            &&& r.error is None
            &&& r.current == draw.id
            &&& r.conversations == s.conversations + 1
            &&& r.messages == s.messages
            &&& r.tables.conversation(draw.id) matches Some(c) && c.title == trimmed(title)
            &&& r.tables.messages == s.tables.messages
        }),
{
    assert(draw.id.push('x').len() != draw.id.len());
    crate::db::conversations::law_created_conversation_is_there(
        s.tables,
        Some(title),
        draw.id,
        draw.now,
        draw.id.push('x'),
    );
}

/// A step that adds a message puts it behind the others of the conversation, as
/// it was: who said it, what, with which reasoning and when.
pub proof fn law_adding_a_message(s: Imported, m: ImportedMessage<Seq<char>>, draw: Draw)
    requires
        s.error is None,
        forall|i: int|
            0 <= i < s.tables.messages.len() ==> crate::text::text_le(
                (#[trigger] s.tables.messages[i]).created_at,
                m.created_at,
            ),
    ensures
        ({
            let r = after_step(s, ImportStep::Add(m), draw);
            r.error is None ==> {
                let said = r.tables.timeline(s.current).last();
                &&& r.messages == s.messages + 1
                &&& r.conversations == s.conversations
                &&& r.current == s.current
                &&& said.role == m.role
                &&& said.content == m.content
                &&& said.reasoning_content == m.reasoning
                &&& said.created_at == m.created_at
                &&& said.conversation_id == s.current
                &&& r.tables.timeline(s.current).drop_last() == s.tables.timeline(s.current)
            }
        }),
{
    let row = crate::db::messages::new_message(
        draw.id,
        s.current,
        m.role,
        m.content,
        m.reasoning,
        TokenUsage::zero(),
        m.created_at,
    );
    law_new_messages_come_last(s.tables, row, draw.now);
    let all = s.tables.timeline(s.current);
    assert(all.push(row).drop_last() =~= all);
}

/// Steps are taken one after the other, up to the first that is refused.
pub proof fn law_steps_in_a_row(
    t: Tables,
    steps: Seq<ImportStep<Seq<char>>>,
    step: ImportStep<Seq<char>>,
    draws: Seq<Draw>,
)
    ensures
        after_steps(t, steps, draws).error is None ==> after_steps(t, steps.push(step), draws)
            == after_step(after_steps(t, steps, draws), step, draws[steps.len() as int]),
        after_steps(t, steps, draws).error is Some ==> after_steps(t, steps.push(step), draws)
            == after_steps(t, steps, draws),
        after_steps(t, Seq::empty(), draws).tables == t,
        after_steps(t, Seq::empty(), draws).conversations == 0,
        after_steps(t, Seq::empty(), draws).messages == 0,
        after_steps(t, Seq::empty(), draws).error is None,
{
    assert(steps.push(step).drop_last() =~= steps);
}

/// A chat that does not say when it was changed counts as one of the first day;
/// one without messages gives none.
pub proof fn law_undated_chats(chat: JsonTree, nodes: Seq<(Seq<char>, JsonTree)>)
    requires
        member(chat, "updated_at"@) is None,
    ensures
        member(chat, "mapping"@) == Some(JsonTree::Object(nodes)) ==> chat_messages(chat).len()
            == nodes_messages(nodes, "1970-01-01T00:00:00+00:00"@).len() && forall|
            m: ImportedMessage<Seq<char>>,
        | #[trigger]
            chat_messages(chat).contains(m) <==> nodes_messages(
                nodes,
                "1970-01-01T00:00:00+00:00"@,
            ).contains(m),
        member(chat, "mapping"@) is None ==> chat_messages(chat).len() == 0,
{
    lemma_same_rows(nodes_messages(nodes, "1970-01-01T00:00:00+00:00"@), date_order());
}

/// The messages of the nodes of a chat are taken node by node.
pub proof fn law_nodes_in_a_row(
    nodes: Seq<(Seq<char>, JsonTree)>,
    node: (Seq<char>, JsonTree),
    fallback: Seq<char>,
)
    ensures
        nodes_messages(nodes.push(node), fallback) == nodes_messages(nodes, fallback)
            + node_messages(node.1, fallback),
        nodes_messages(Seq::empty(), fallback).len() == 0,
{
    assert(nodes.push(node).drop_last() =~= nodes);
}

} // verus!
