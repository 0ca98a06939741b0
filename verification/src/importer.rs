//! Conversations exported by another program.
use vstd::prelude::*;
use crate::db::messages::new_message;
use crate::db::ordering::{has_room, law_numbered_has_room};
use crate::db::{Database, DbError, Tables};
use crate::json::{
    as_items, as_members, as_text, get, get_in, items_of_tree, json_read, member, member_of,
    members_of_tree, pair_trees, text_of_tree, trees, try_parse, Json, JsonTree,
};
use crate::models::{ImportResult, TokenUsage};
use crate::sorting::{law_sorted, sorted, stable_sort, views};
use crate::stamps::{are_drawn, fresh_id, now_iso, Draw};
use crate::text::{
    law_text_order_total, law_text_order_transitive, le_text, opt_str, text_eq, text_le, trim,
    trimmed, uppercase,
};

verus! {

// ---------------------------------------------------------------------------
// What a file holds
// ---------------------------------------------------------------------------

/// A message of an exported conversation.
#[verifier::ext_equal]
#[derive(Debug)]
pub struct ImportedMessage<S = String> {
    pub role: S,
    pub content: S,
    pub reasoning: S,
    pub created_at: S,
}

impl View for ImportedMessage<String> {
    type V = ImportedMessage<Seq<char>>;

    open spec fn view(&self) -> ImportedMessage<Seq<char>> {
        ImportedMessage {
            role: self.role@,
            content: self.content@,
            reasoning: self.reasoning@,
            created_at: self.created_at@,
        }
    }
}

/// A step of an import.
#[derive(Debug)]
pub enum ImportStep<S = String> {
    /// A new conversation with this title.
    Begin(S),
    /// A message of the conversation that was begun last.
    Add(ImportedMessage<S>),
}

impl View for ImportStep<String> {
    type V = ImportStep<Seq<char>>;

    open spec fn view(&self) -> ImportStep<Seq<char>> {
        match *self {
            ImportStep::Begin(t) => ImportStep::Begin(t@),
            ImportStep::Add(m) => ImportStep::Add(m@),
        }
    }
}

/// A text, else `default`.
pub open spec fn text_or(s: Option<Seq<char>>, default: Seq<char>) -> Seq<char> {
    match s {
        Some(t) => t,
        None => default,
    }
}

/// What was read of the fragments of a message: the thoughts that belong to the
/// next response, and the messages.
#[verifier::ext_equal]
pub struct Fragments {
    pub thoughts: Seq<char>,
    pub messages: Seq<ImportedMessage<Seq<char>>>,
}

/// What was read after a fragment of a kind, which is in upper case, with a
/// trimmed content.
pub open spec fn after_fragment(
    f: Fragments,
    kind: Seq<char>,
    content: Seq<char>,
    created_at: Seq<char>,
) -> Fragments {
    if content.len() == 0 {
        f
    } else if kind == "REQUEST"@ {
        Fragments {
            messages: f.messages.push(
                ImportedMessage { role: "user"@, content, reasoning: ""@, created_at },
            ),
            ..f
        }
    } else if kind == "THINK"@ {
        Fragments {
            thoughts: if f.thoughts.len() == 0 {
                content
            } else {
                f.thoughts + "\n"@ + content
            },
            ..f
        }
    } else if kind == "RESPONSE"@ {
        Fragments {
            thoughts: Seq::empty(),
            messages: f.messages.push(
                ImportedMessage {
                    role: "assistant"@,
                    content,
                    reasoning: f.thoughts,
                    created_at,
                },
            ),
        }
    } else {
        f
    }
}

/// What was read after a fragment.
pub open spec fn after_item(f: Fragments, item: JsonTree, created_at: Seq<char>) -> Fragments {
    match members_of_tree(Some(item)) {
        Some(_) => after_fragment(
            f,
            uppercase(text_or(text_of_tree(member(item, "type"@)), ""@)),
            trimmed(text_or(text_of_tree(member(item, "content"@)), ""@)),
            created_at,
        ),
        None => f,
    }
}

/// What was read after fragments.
pub open spec fn after_items(f: Fragments, items: Seq<JsonTree>, created_at: Seq<char>) -> Fragments
    decreases items.len(),
{
    if items.len() == 0 {
        f
    } else {
        after_item(after_items(f, items.drop_last(), created_at), items.last(), created_at)
    }
}

/// The messages of a node; `fallback` dates those without a date.
pub open spec fn node_messages(node: JsonTree, fallback: Seq<char>) -> Seq<
    ImportedMessage<Seq<char>>,
> {
    let message = member(node, "message"@);
    match members_of_tree(message) {
        None => Seq::empty(),
        Some(_) => match items_of_tree(member_of(message, "fragments"@)) {
            None => Seq::empty(),
            Some(items) => after_items(
                Fragments { thoughts: Seq::empty(), messages: Seq::empty() },
                items,
                text_or(text_of_tree(member_of(message, "inserted_at"@)), fallback),
            ).messages,
        },
    }
}

/// The messages of nodes one after the other.
pub open spec fn nodes_messages(nodes: Seq<(Seq<char>, JsonTree)>, fallback: Seq<char>) -> Seq<
    ImportedMessage<Seq<char>>,
>
    decreases nodes.len(),
{
    if nodes.len() == 0 {
        Seq::empty()
    } else {
        nodes_messages(nodes.drop_last(), fallback) + node_messages(nodes.last().1, fallback)
    }
}

/// The order of dates.
pub open spec fn date_order() -> spec_fn(
    ImportedMessage<Seq<char>>,
    ImportedMessage<Seq<char>>,
) -> bool {
    |a: ImportedMessage<Seq<char>>, b: ImportedMessage<Seq<char>>|
        text_le(a.created_at, b.created_at)
}

/// The messages of a conversation in the order of their dates.
pub open spec fn chat_messages(chat: JsonTree) -> Seq<ImportedMessage<Seq<char>>> {
    let fallback = text_or(
        text_of_tree(member(chat, "updated_at"@)),
        "1970-01-01T00:00:00+00:00"@,
    );
    match members_of_tree(member(chat, "mapping"@)) {
        Some(nodes) => sorted(
            nodes_messages(nodes, fallback),
            date_order(),
        ),
        None => Seq::empty(),
    }
}

/// The title of a conversation.
pub open spec fn chat_title(chat: JsonTree) -> Seq<char> {
    let title = trimmed(text_or(text_of_tree(member(chat, "title"@)), ""@));
    if title.len() == 0 {
        "Imported Chat"@
    } else {
        title
    }
}

/// The steps that add messages.
pub open spec fn add_steps(messages: Seq<ImportedMessage<Seq<char>>>) -> Seq<
    ImportStep<Seq<char>>,
> {
    Seq::new(messages.len(), |i: int| ImportStep::Add(messages[i]))
}

/// The steps that import a conversation; what is no object is passed over.
pub open spec fn chat_steps(chat: JsonTree) -> Seq<ImportStep<Seq<char>>> {
    match members_of_tree(Some(chat)) {
        Some(_) => seq![ImportStep::Begin(chat_title(chat))] + add_steps(chat_messages(chat)),
        None => Seq::empty(),
    }
}

/// The steps that import conversations.
pub open spec fn steps_of(chats: Seq<JsonTree>) -> Seq<ImportStep<Seq<char>>>
    decreases chats.len(),
{
    if chats.len() == 0 {
        Seq::empty()
    } else {
        steps_of(chats.drop_last()) + chat_steps(chats.last())
    }
}

/// A text, else `default`.
fn or_default<'a>(s: Option<&'a str>, default: &'a str) -> (r: &'a str)
    ensures
        r@ == text_or(opt_str(s), default@),
{
    match s {
        Some(t) => t,
        None => default,
    }
}

/// Takes a fragment of a kind, which is in upper case, with a trimmed content.
pub fn take_fragment(
    thoughts: String,
    out: &mut Vec<ImportedMessage>,
    kind: &str,
    content: &str,
    created_at: &str,
) -> (r: String)
    ensures
        (Fragments { thoughts: r@, messages: views(final(out)@) }) == after_fragment(
            Fragments { thoughts: thoughts@, messages: views(old(out)@) },
            kind@,
            content@,
            created_at@,
        ),
{
    if content.is_empty() {
        return thoughts;
    }
    if text_eq(kind, "REQUEST") {
        let m = ImportedMessage {
            role: "user".to_owned(),
            content: content.to_owned(),
            reasoning: "".to_owned(),
            created_at: created_at.to_owned(),
        };
        let ghost next = views(out@).push(m@);
        out.push(m);
        assert(views(out@) =~= next);
        return thoughts;
    }
    if text_eq(kind, "THINK") {
        let mut t = thoughts;
        if t.as_str().is_empty() {
            return content.to_owned();
        }
        t.append("\n");
        t.append(content);
        return t;
    }
    if text_eq(kind, "RESPONSE") {
        let m = ImportedMessage {
            role: "assistant".to_owned(),
            content: content.to_owned(),
            reasoning: thoughts,
            created_at: created_at.to_owned(),
        };
        let ghost next = views(out@).push(m@);
        out.push(m);
        assert(views(out@) =~= next);
        return String::new();
    }
    thoughts
}

/// Reads the fragments of a message; its messages are added to `out`.
fn read_fragments(items: &Vec<Json>, created_at: &str, out: &mut Vec<ImportedMessage>)
    ensures
        views(final(out)@) == views(old(out)@) + after_items(
            Fragments { thoughts: Seq::empty(), messages: Seq::empty() },
            trees(items@),
            created_at@,
        ).messages,
{
    let ghost all = trees(items@);
    let ghost none = Fragments { thoughts: Seq::empty(), messages: Seq::empty() };
    let mut mine: Vec<ImportedMessage> = Vec::new();
    assert(views(mine@) =~= Seq::empty());
    let mut thoughts = String::new();
    for i in 0..items.len()
        invariant
            all == trees(items@),
            none == (Fragments { thoughts: Seq::empty(), messages: Seq::empty() }),
            (Fragments { thoughts: thoughts@, messages: views(mine@) }) == after_items(
                none,
                all.take(i as int),
                created_at@,
            ),
    {
        assert(all.take(i + 1).drop_last() =~= all.take(i as int));
        assert(all[i as int] == items@[i as int]@);
        let item = &items[i];
        if as_members(Some(item)).is_some() {
            let kind = or_default(as_text(get(item, "type")), "").to_uppercase();
            let content = trim(or_default(as_text(get(item, "content")), ""));
            thoughts = take_fragment(thoughts, &mut mine, &kind, &content, created_at);
        }
    }
    assert(all.take(all.len() as int) =~= all);
    let ghost before = views(out@);
    let ghost more = views(mine@);
    out.append(&mut mine);
    assert(views(out@) =~= before + more);
}

/// Reads a node; its messages are added to `out`.
fn read_node(node: &Json, fallback: &str, out: &mut Vec<ImportedMessage>)
    ensures
        views(final(out)@) == views(old(out)@) + node_messages(node@, fallback@),
{
    assert(views(out@) + Seq::<ImportedMessage<Seq<char>>>::empty() =~= views(out@));
    let message = get(node, "message");
    if as_members(message).is_none() {
        return;
    }
    let created_at = or_default(as_text(get_in(message, "inserted_at")), fallback);
    if let Some(items) = as_items(get_in(message, "fragments")) {
        read_fragments(items, created_at, out);
    }
}

/// The messages of a conversation in the order of their dates.
fn read_messages(chat: &Json) -> (r: Vec<ImportedMessage>)
    ensures
        views(r@) == chat_messages(chat@),
{
    let fallback = or_default(as_text(get(chat, "updated_at")), "1970-01-01T00:00:00+00:00");
    let mut out: Vec<ImportedMessage> = Vec::new();
    assert(views(out@) =~= Seq::empty());
    let nodes = match as_members(get(chat, "mapping")) {
        Some(n) => n,
        None => {
            return out;
        },
    };
    let ghost all = pair_trees(nodes@);
    for i in 0..nodes.len()
        invariant
            all == pair_trees(nodes@),
            views(out@) == nodes_messages(all.take(i as int), fallback@),
    {
        assert(all.take(i + 1).drop_last() =~= all.take(i as int));
        assert(all[i as int].1 == nodes@[i as int].1@);
        read_node(&nodes[i].1, fallback, &mut out);
    }
    assert(all.take(all.len() as int) =~= all);
    stable_sort(
        out,
        |a: &ImportedMessage, b: &ImportedMessage| -> (r: bool)
            ensures
                r == text_le(a@.created_at, b@.created_at)
            { le_text(&a.created_at, &b.created_at) },
        Ghost(date_order()),
    )
}

/// Reads a conversation; the steps that import it are added to `out`.
fn read_chat(chat: &Json, out: &mut Vec<ImportStep>)
    ensures
        views(final(out)@) == views(old(out)@) + chat_steps(chat@),
{
    let ghost before = views(out@);
    if as_members(Some(chat)).is_none() {
        assert(before + Seq::<ImportStep<Seq<char>>>::empty() =~= before);
        return;
    }
    let title = trim(or_default(as_text(get(chat, "title")), ""));
    let title = if title.as_str().is_empty() {
        "Imported Chat".to_owned()
    } else {
        title
    };
    let messages = read_messages(chat);
    let ghost all = views(messages@);
    let ghost first: Seq<ImportStep<Seq<char>>> = seq![ImportStep::Begin(title@)];
    out.push(ImportStep::Begin(title));
    assert(views(out@) =~= before + first + add_steps(all.take(0)));
    for m in it: messages
        invariant
            all == views(it.seq()),
            views(out@) == before + first + add_steps(all.take(it.index())),
    {
        let ghost k = it.index();
        let ghost now = views(out@).push(ImportStep::Add(m@));
        out.push(ImportStep::Add(m));
        assert(views(out@) =~= now);
        assert(all[k] == m@);
        assert(now =~= before + first + add_steps(all.take(k + 1)));
    }
    assert(all.take(all.len() as int) =~= all);
    assert(before + first + add_steps(all) =~= before + (first + add_steps(all)));
}

/// The steps that import the conversations of a file, where it holds a list of
/// them.
pub fn plan_import(root: &Json) -> (r: Option<Vec<ImportStep>>)
    ensures
        match r {
            Some(steps) => match items_of_tree(Some(root@)) {
                Some(chats) => views(steps@) == steps_of(chats),
                None => false,
            },
            None => items_of_tree(Some(root@)) is None,
        },
{
    let chats = match as_items(Some(root)) {
        Some(c) => c,
        None => {
            return None;
        },
    };
    let ghost all = trees(chats@);
    let mut out: Vec<ImportStep> = Vec::new();
    assert(views(out@) =~= Seq::empty());
    for i in 0..chats.len()
        invariant
            all == trees(chats@),
            views(out@) == steps_of(all.take(i as int)),
    {
        assert(all.take(i + 1).drop_last() =~= all.take(i as int));
        assert(all[i as int] == chats@[i as int]@);
        read_chat(&chats[i], &mut out);
    }
    assert(all.take(all.len() as int) =~= all);
    Some(out)
}

// ---------------------------------------------------------------------------
// Importing
// ---------------------------------------------------------------------------

/// How far an import came.
#[verifier::ext_equal]
pub struct Imported {
    pub tables: Tables,
    /// The conversation that was begun last.
    pub current: Seq<char>,
    pub conversations: nat,
    pub messages: nat,
    pub error: Option<DbError>,
}

/// How far an import came after a step.
pub open spec fn after_step(s: Imported, step: ImportStep<Seq<char>>, draw: Draw) -> Imported {
    match step {
        ImportStep::Begin(title) => match s.tables.with_conversation(
            Some(title),
            draw.id,
            draw.now,
        ) {
            Ok((t, c)) => Imported {
                tables: t,
                current: c.id,
                conversations: s.conversations + 1,
                ..s
            },
            Err(e) => Imported { error: Some(e), ..s },
        },
        ImportStep::Add(m) => match s.tables.with_message(
            new_message(
                draw.id,
                s.current,
                m.role,
                m.content,
                m.reasoning,
                TokenUsage::zero(),
                m.created_at,
            ),
            draw.now,
        ) {
            Ok(t) => Imported { tables: t, messages: s.messages + 1, ..s },
            Err(e) => Imported { error: Some(e), ..s },
        },
    }
}

/// How far an import came after steps, each with its draw; it ends where a step
/// is refused.
pub open spec fn after_steps(
    t: Tables,
    steps: Seq<ImportStep<Seq<char>>>,
    draws: Seq<Draw>,
) -> Imported
    decreases steps.len(),
{
    if steps.len() == 0 {
        Imported { tables: t, current: Seq::empty(), conversations: 0, messages: 0, error: None }
    } else {
        let before = after_steps(t, steps.drop_last(), draws);
        if before.error is Some {
            before
        } else {
            after_step(before, steps.last(), draws[steps.len() - 1])
        }
    }
}

/// Once a step was refused, further steps change nothing.
proof fn lemma_steps_stop(
    t: Tables,
    steps: Seq<ImportStep<Seq<char>>>,
    draws: Seq<Draw>,
    k: int,
)
    requires
        0 <= k <= steps.len(),
        after_steps(t, steps.take(k), draws).error is Some,
    ensures
        after_steps(t, steps, draws) == after_steps(t, steps.take(k), draws),
    decreases steps.len() - k,
{
    if k == steps.len() {
        assert(steps.take(k) =~= steps);
    } else {
        assert(steps.take(k + 1).drop_last() =~= steps.take(k));
        lemma_steps_stop(t, steps, draws, k + 1);
    }
}

/// The first steps depend on the first draws alone.
proof fn lemma_first_draws(
    t: Tables,
    steps: Seq<ImportStep<Seq<char>>>,
    draws: Seq<Draw>,
    more: Seq<Draw>,
)
    requires
        steps.len() <= draws.len() <= more.len(),
        forall|i: int| 0 <= i < draws.len() ==> draws[i] == more[i],
    ensures
        after_steps(t, steps, draws) == after_steps(t, steps, more),
    decreases steps.len(),
{
    if steps.len() > 0 {
        lemma_first_draws(t, steps.drop_last(), draws, more);
    }
}

/// The counts of an import, or the refusal that ended it.
pub open spec fn is_outcome(r: Result<ImportResult, DbError>, s: Imported) -> bool {
    match s.error {
        Some(e) => r == Err::<ImportResult, DbError>(e),
        None => match r {
            Ok(n) => n.imported_conversations == s.conversations && n.imported_messages
                == s.messages,
            Err(_) => false,
        },
    }
}

impl Database {
    /// Takes the steps of an import.
    pub fn run_import(&mut self, steps: &Vec<ImportStep>) -> (r: Result<ImportResult, DbError>)
        requires
            has_room(old(self)@.conversations),
        ensures
            exists|draws: Seq<Draw>|
                draws.len() == steps@.len() && are_drawn(draws) && is_outcome(
                    r,
                    #[trigger] after_steps(old(self)@, views(steps@), draws),
                ) && final(self)@ == after_steps(old(self)@, views(steps@), draws).tables,
    {
        let ghost before = self@;
        let ghost all = views(steps@);
        let ghost mut draws: Seq<Draw> = Seq::empty();
        let mut current = String::new();
        let mut conversations: usize = 0;
        let mut messages: usize = 0;
        assert(all.take(0) =~= Seq::empty());
        for i in 0..steps.len()
            invariant
                before == old(self)@,
                all == views(steps@),
                draws.len() == i,
                are_drawn(draws),
                has_room(self@.conversations),
                conversations + messages <= i,
                after_steps(before, all.take(i as int), draws) == (Imported {
                    tables: self@,
                    current: current@,
                    conversations: conversations as nat,
                    messages: messages as nat,
                    error: None,
                }),
        {
            let id = fresh_id();
            let now = now_iso();
            let ghost had = draws;
            let ghost state = after_steps(before, all.take(i as int), draws);
            proof {
                draws = draws.push(Draw { id: id@, now: now@ });
                assert(all.take(i + 1).drop_last() =~= all.take(i as int));
                lemma_first_draws(before, all.take(i as int), had, draws);
                assert(all[i as int] == steps@[i as int]@);
                assert(after_steps(before, all.take(i + 1), draws) == after_step(
                    state,
                    all[i as int],
                    Draw { id: id@, now: now@ },
                ));
            }
            let failed = match &steps[i] {
                ImportStep::Begin(title) => {
                    match self.create_conversation_at(Some(title.as_str()), &id, &now) {
                        Ok(c) => {
                            proof {
                                law_numbered_has_room(
                                    state.tables.conversations.push(
                                        crate::db::conversations::new_conversation(
                                            id@,
                                            crate::db::conversations::first_title(Some(title@)),
                                            now@,
                                            crate::db::ordering::above_all(
                                                state.tables.conversations,
                                                false,
                                            ),
                                        ),
                                    ),
                                );
                            }
                            current = c.id;
                            conversations = conversations + 1;
                            None
                        },
                        Err(e) => Some(e),
                    }
                },
                ImportStep::Add(m) => {
                    let usage = TokenUsage::default();
                    match self.add_message_at(
                        &current,
                        &m.role,
                        &m.content,
                        &m.reasoning,
                        &usage,
                        &id,
                        &m.created_at,
                        &now,
                    ) {
                        Ok(_) => {
                            messages = messages + 1;
                            None
                        },
                        Err(e) => Some(e),
                    }
                },
            };
            if let Some(e) = failed {
                proof {
                    let n = all.len() as nat;
                    let rest = Seq::new(
                        (n - draws.len()) as nat,
                        |k: int| Draw { id: id@, now: now@ },
                    );
                    let full = draws + rest;
                    lemma_first_draws(before, all.take(i + 1), draws, full);
                    lemma_steps_stop(before, all, full, i + 1);
                    assert(are_drawn(full));
                    assert(after_steps(before, all, full).error == Some(e));
                }
                return Err(e);
            }
        }
        assert(all.take(all.len() as int) =~= all);
        assert(is_outcome(
            Ok::<ImportResult, DbError>(
                ImportResult {
                    imported_conversations: conversations,
                    imported_messages: messages,
                },
            ),
            after_steps(before, all, draws),
        ));
        Ok(
            ImportResult {
                imported_conversations: conversations,
                imported_messages: messages,
            },
        )
    }
}

/// Why an import failed.
#[derive(Debug)]
pub enum ImportError {
    /// The file is no JSON, as this text says.
    Syntax(String),
    /// The file holds no list.
    NotAList,
    /// A row was refused.
    Refused(DbError),
}

impl ImportError {
    /// What is said of a failed import.
    pub fn message(&self) -> (r: String)
        ensures
            r@ == match *self {
                ImportError::Syntax(e) => e@,
                ImportError::NotAList => "invalid conversations.json: root must be array"@,
                ImportError::Refused(e) => crate::db::error_text(e),
            },
    {
        match self {
            ImportError::Syntax(e) => e.clone(),
            ImportError::NotAList => "invalid conversations.json: root must be array".to_owned(),
            ImportError::Refused(e) => (*e).message(),
        }
    }
}

/// The counts of an import, or the refusal that ended it.
pub open spec fn is_import_outcome(r: Result<ImportResult, ImportError>, s: Imported) -> bool {
    match r {
        Ok(n) => is_outcome(Ok(n), s),
        Err(ImportError::Refused(e)) => is_outcome(Err(e), s),
        Err(_) => false,
    }
}

/// An import of a value went as it should.
pub open spec fn import_done(
    r: Result<ImportResult, ImportError>,
    root: JsonTree,
    before: Tables,
    after: Tables,
) -> bool {
    match items_of_tree(Some(root)) {
        None => (r matches Err(ImportError::NotAList)) && after == before,
        Some(chats) => exists|draws: Seq<Draw>|
            draws.len() == steps_of(chats).len() && are_drawn(draws) && is_import_outcome(
                r,
                #[trigger] after_steps(before, steps_of(chats), draws),
            ) && after == after_steps(before, steps_of(chats), draws).tables,
    }
}

/// Imports the conversations of a value.
pub fn import_value(db: &mut Database, root: &Json) -> (r: Result<ImportResult, ImportError>)
    requires
        has_room(old(db)@.conversations),
    ensures
        import_done(r, root@, old(db)@, final(db)@),
{
    match plan_import(root) {
        None => Err(ImportError::NotAList),
        Some(steps) => match db.run_import(&steps) {
            Ok(n) => Ok(n),
            Err(e) => Err(ImportError::Refused(e)),
        },
    }
}

/// Imports the conversations of a file with this text.
pub fn import_conversations_json(db: &mut Database, raw: &str) -> (r: Result<
    ImportResult,
    ImportError,
>)
    requires
        has_room(old(db)@.conversations),
    ensures
        match json_read(raw@) {
            Err(e) => final(db)@ == old(db)@ && match r {
                Err(ImportError::Syntax(s)) => s@ == e,
                _ => false,
            },
            Ok(root) => import_done(r, root, old(db)@, final(db)@),
        },
{
    match try_parse(raw) {
        Err(e) => Err(ImportError::Syntax(e)),
        Ok(root) => import_value(db, &root),
    }
}

// ---------------------------------------------------------------------------
// Laws
// ---------------------------------------------------------------------------

/// An import that was not refused took every step: each began a conversation or
/// added a message.
pub proof fn law_import_counts_every_step(
    t: Tables,
    steps: Seq<ImportStep<Seq<char>>>,
    draws: Seq<Draw>,
)
    ensures
        ({
            let s = after_steps(t, steps, draws);
            s.error is None ==> s.conversations + s.messages == steps.len()
        }),
        after_steps(t, steps, draws).tables.memories == t.memories,
    decreases steps.len(),
{
    if steps.len() > 0 {
        law_import_counts_every_step(t, steps.drop_last(), draws);
    }
}

/// The messages of an imported conversation come in the order of their dates.
pub proof fn law_imported_messages_are_in_order(chat: JsonTree, i: int, j: int)
    requires
        0 <= i <= j < chat_messages(chat).len(),
    ensures
        text_le(chat_messages(chat)[i].created_at, chat_messages(chat)[j].created_at),
{
    let le = date_order();
    assert forall|a: ImportedMessage<Seq<char>>, b: ImportedMessage<Seq<char>>| #[trigger]
        le(a, b) || le(b, a) by {
        law_text_order_total(a.created_at, b.created_at);
    }
    assert forall|
        a: ImportedMessage<Seq<char>>,
        b: ImportedMessage<Seq<char>>,
        c: ImportedMessage<Seq<char>>,
    | #[trigger] le(a, b) && #[trigger] le(b, c) implies le(a, c) by {
        law_text_order_transitive(a.created_at, b.created_at, c.created_at);
    }
    match members_of_tree(member(chat, "mapping"@)) {
        Some(nodes) => {
            let fallback = text_or(
                text_of_tree(member(chat, "updated_at"@)),
                "1970-01-01T00:00:00+00:00"@,
            );
            law_sorted(nodes_messages(nodes, fallback), le);
            assert(le(chat_messages(chat)[i], chat_messages(chat)[j]));
        },
        None => {},
    }
}

/// An import keeps what every operation keeps, wherever it ends.
pub proof fn law_import_keeps_soundness(
    t: Tables,
    steps: Seq<ImportStep<Seq<char>>>,
    draws: Seq<Draw>,
)
    requires
        t.sound(),
    ensures
        after_steps(t, steps, draws).tables.sound(),
    decreases steps.len(),
{
    if steps.len() > 0 {
        law_import_keeps_soundness(t, steps.drop_last(), draws);
        let before = after_steps(t, steps.drop_last(), draws);
        let draw = draws[steps.len() - 1];
        match steps.last() {
            ImportStep::Begin(title) => {
                crate::db::soundness::law_sound_with_conversation(
                    before.tables,
                    Some(title),
                    draw.id,
                    draw.now,
                );
            },
            ImportStep::Add(m) => {
                crate::db::soundness::law_sound_with_message(
                    before.tables,
                    new_message(
                        draw.id,
                        before.current,
                        m.role,
                        m.content,
                        m.reasoning,
                        TokenUsage::zero(),
                        m.created_at,
                    ),
                    draw.now,
                );
            },
        }
    }
}

} // verus!
