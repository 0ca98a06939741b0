//! What is stored: settings, conversations, messages, memories, summaries,
//! attachments and the two profiles.
use vstd::prelude::*;
use crate::models::{
    ConversationFile, ConversationRow, MemoryRow, Message, Setting, StyleProfile, SummaryRow,
    UserProfile,
};
use crate::sorting::views;
use crate::table::{find_row, first_row, first_where};
use crate::text::text_eq;

pub mod attachments;
pub mod chat_settings;
pub mod conversations;
pub mod listing_laws;
pub mod memories;
pub mod messages;
pub mod order_laws;
pub mod ordering;
pub mod profiles;
pub mod recall;
pub mod recall_laws;
pub mod schema;
pub mod soundness;
pub mod start_laws;
pub mod store_laws;
pub mod summaries;
pub mod upkeep;

verus! {

/// The contents of the database.
#[verifier::ext_equal]
pub struct Tables {
    pub settings: Seq<Setting<Seq<char>>>,
    pub conversations: Seq<ConversationRow<Seq<char>>>,
    pub messages: Seq<Message<Seq<char>>>,
    pub memories: Seq<MemoryRow<Seq<char>>>,
    pub summaries: Seq<SummaryRow<Seq<char>>>,
    pub files: Seq<ConversationFile<Seq<char>>>,
    pub user_profile: Option<UserProfile<Seq<char>>>,
    pub style_profile: Option<StyleProfile<Seq<char>>>,
}

/// The database. Rows stand in the order in which they were added.
#[derive(Debug)]
pub struct Database {
    pub settings: Vec<Setting>,
    pub conversations: Vec<ConversationRow>,
    pub messages: Vec<Message>,
    pub memories: Vec<MemoryRow>,
    pub summaries: Vec<SummaryRow>,
    pub files: Vec<ConversationFile>,
    pub user_profile: Option<UserProfile>,
    pub style_profile: Option<StyleProfile>,
}

/// The view of an optional user profile.
pub open spec fn opt_user(p: Option<UserProfile>) -> Option<UserProfile<Seq<char>>> {
    match p {
        Some(u) => Some(u@),
        None => None,
    }
}

/// The view of an optional style profile.
pub open spec fn opt_style(p: Option<StyleProfile>) -> Option<StyleProfile<Seq<char>>> {
    match p {
        Some(u) => Some(u@),
        None => None,
    }
}

impl View for Database {
    type V = Tables;

    open spec fn view(&self) -> Tables {
        Tables {
            settings: views(self.settings@),
            conversations: views(self.conversations@),
            messages: views(self.messages@),
            memories: views(self.memories@),
            summaries: views(self.summaries@),
            files: views(self.files@),
            user_profile: opt_user(self.user_profile),
            style_profile: opt_style(self.style_profile),
        }
    }
}

/// Why a change was refused.
#[derive(Clone, Copy, Debug, PartialEq, Eq, Structural)]
pub enum DbError {
    /// The row belongs to a conversation that does not exist.
    NoConversation,
    /// There is a conversation with this identifier.
    ConversationExists,
    /// There is a message with this identifier.
    MessageExists,
    /// There is a memory with this identifier.
    MemoryExists,
    /// There is a summary with this identifier.
    SummaryExists,
    /// The conversation has a summary with this number.
    SegmentExists,
    /// There is an attachment with this identifier.
    FileExists,
    /// There is no memory with this identifier.
    MemoryNotFound,
    /// A memory of a conversation needs to know which.
    ConversationRequired,
}

/// What is said of a refused change.
pub open spec fn error_text(e: DbError) -> Seq<char> {
    match e {
        DbError::NoConversation => "FOREIGN KEY constraint failed"@,
        DbError::ConversationExists => "UNIQUE constraint failed: conversations.id"@,
        DbError::MessageExists => "UNIQUE constraint failed: messages.id"@,
        DbError::MemoryExists => "UNIQUE constraint failed: memories.id"@,
        DbError::SummaryExists => "UNIQUE constraint failed: summaries.id"@,
        DbError::SegmentExists => "UNIQUE constraint failed: summaries.conversation_id, summaries.segment_index"@,
        DbError::FileExists => "UNIQUE constraint failed: conversation_files.id"@,
        DbError::MemoryNotFound => "memory not found"@,
        DbError::ConversationRequired => "conversation_id required when converting to conversation scope"@,
    }
}

/// A change from `before` to `after` went as `want` says it should; a refused
/// change leaves everything as it was.
pub open spec fn carried_out(
    r: Result<(), DbError>,
    want: Result<Tables, DbError>,
    before: Tables,
    after: Tables,
) -> bool {
    match want {
        Ok(t) => r is Ok && after == t,
        Err(e) => r == Err::<(), DbError>(e) && after == before,
    }
}

impl DbError {
    /// What is said of a refused change.
    pub fn message(self) -> (r: String)
        ensures
            r@ == error_text(self),
    {
        match self {
            DbError::NoConversation => "FOREIGN KEY constraint failed".to_owned(),
            DbError::ConversationExists => "UNIQUE constraint failed: conversations.id".to_owned(),
            DbError::MessageExists => "UNIQUE constraint failed: messages.id".to_owned(),
            DbError::MemoryExists => "UNIQUE constraint failed: memories.id".to_owned(),
            DbError::SummaryExists => "UNIQUE constraint failed: summaries.id".to_owned(),
            DbError::SegmentExists => "UNIQUE constraint failed: summaries.conversation_id, summaries.segment_index".to_owned(),
            DbError::FileExists => "UNIQUE constraint failed: conversation_files.id".to_owned(),
            DbError::MemoryNotFound => "memory not found".to_owned(),
            DbError::ConversationRequired => "conversation_id required when converting to conversation scope".to_owned(),
        }
    }
}

/// The conversation has this identifier.
pub open spec fn is_conversation(id: Seq<char>) -> spec_fn(ConversationRow<Seq<char>>) -> bool {
    |c: ConversationRow<Seq<char>>| c.id == id
}

/// The message has this identifier.
pub open spec fn is_message(id: Seq<char>) -> spec_fn(Message<Seq<char>>) -> bool {
    |m: Message<Seq<char>>| m.id == id
}

/// The memory has this identifier.
pub open spec fn is_memory(id: Seq<char>) -> spec_fn(MemoryRow<Seq<char>>) -> bool {
    |m: MemoryRow<Seq<char>>| m.id == id
}

/// The conversation has another identifier.
pub open spec fn is_other_conversation(id: Seq<char>) -> spec_fn(
    ConversationRow<Seq<char>>,
) -> bool {
    |c: ConversationRow<Seq<char>>| c.id != id
}

/// The message has another identifier.
pub open spec fn is_other_message(id: Seq<char>) -> spec_fn(Message<Seq<char>>) -> bool {
    |m: Message<Seq<char>>| m.id != id
}

/// The memory has another identifier.
pub open spec fn is_other_memory(id: Seq<char>) -> spec_fn(MemoryRow<Seq<char>>) -> bool {
    |m: MemoryRow<Seq<char>>| m.id != id
}

/// The message belongs to another conversation.
pub open spec fn message_elsewhere(conversation_id: Seq<char>) -> spec_fn(
    Message<Seq<char>>,
) -> bool {
    |m: Message<Seq<char>>| m.conversation_id != conversation_id
}

/// The summary belongs to another conversation.
pub open spec fn summary_elsewhere(conversation_id: Seq<char>) -> spec_fn(
    SummaryRow<Seq<char>>,
) -> bool {
    |s: SummaryRow<Seq<char>>| s.conversation_id != conversation_id
}

/// The attachment belongs to another conversation.
pub open spec fn file_elsewhere(conversation_id: Seq<char>) -> spec_fn(
    ConversationFile<Seq<char>>,
) -> bool {
    |f: ConversationFile<Seq<char>>| f.conversation_id != conversation_id
}

impl Tables {
    /// No rows at all.
    pub open spec fn empty() -> Tables {
        Tables {
            settings: Seq::empty(),
            conversations: Seq::empty(),
            messages: Seq::empty(),
            memories: Seq::empty(),
            summaries: Seq::empty(),
            files: Seq::empty(),
            user_profile: None,
            style_profile: None,
        }
    }

    /// There is a conversation with this identifier.
    pub open spec fn has_conversation(self, id: Seq<char>) -> bool {
        first_where(self.conversations, is_conversation(id)) is Some
    }

    /// The first conversation with this identifier.
    pub open spec fn conversation(self, id: Seq<char>) -> Option<ConversationRow<Seq<char>>> {
        first_row(self.conversations, is_conversation(id))
    }

    /// The first message with this identifier, deleted or not.
    pub open spec fn any_message(self, id: Seq<char>) -> Option<Message<Seq<char>>> {
        first_row(self.messages, is_message(id))
    }

    /// The conversation `id` marked as changed at `now`.
    pub open spec fn touched(self, id: Seq<char>, now: Seq<char>) -> Tables {
        Tables {
            conversations: crate::table::changed(
                self.conversations,
                is_conversation(id),
                |c: ConversationRow<Seq<char>>| ConversationRow { updated_at: now, ..c },
            ),
            ..self
        }
    }
}

impl Database {
    /// A database without rows.
    pub fn new() -> (r: Database)
        ensures
            r@ == Tables::empty(),
    {
        let r = Database {
            settings: Vec::new(),
            conversations: Vec::new(),
            messages: Vec::new(),
            memories: Vec::new(),
            summaries: Vec::new(),
            files: Vec::new(),
            user_profile: None,
            style_profile: None,
        };
        assert(r@ =~= Tables::empty());
        r
    }

    /// The position of the first conversation with this identifier.
    pub fn find_conversation(&self, id: &str) -> (r: Option<usize>)
        ensures
            match r {
                Some(i) => i < self.conversations.len() && self@.conversation(id@) == Some(
                    self@.conversations[i as int],
                ) && self@.has_conversation(id@),
                None => !self@.has_conversation(id@) && self@.conversation(id@) is None,
            },
    {
        find_row(
            &self.conversations,
            |c: &ConversationRow| -> (r: bool)
                ensures
                    r == (c@.id == id@)
                { text_eq(&c.id, id) },
            Ghost(is_conversation(id@)),
        )
    }

    /// The position of the first message with this identifier, deleted or not.
    pub fn find_message(&self, id: &str) -> (r: Option<usize>)
        ensures
            match r {
                Some(i) => i < self.messages.len() && self@.any_message(id@) == Some(
                    self@.messages[i as int],
                ),
                None => self@.any_message(id@) is None,
            },
    {
        find_row(
            &self.messages,
            |m: &Message| -> (r: bool)
                ensures
                    r == (m@.id == id@)
                { text_eq(&m.id, id) },
            Ghost(is_message(id@)),
        )
    }

    /// Marks the conversation `id` as changed at `now`.
    pub fn touch(&mut self, id: &str, now: &str)
        ensures
            final(self)@ == old(self)@.touched(id@, now@),
    {
        crate::table::change_rows(
            &mut self.conversations,
            |c: &ConversationRow| -> (r: bool)
                ensures
                    r == (c@.id == id@)
                { text_eq(&c.id, id) },
            |c: &ConversationRow| -> (r: ConversationRow)
                ensures
                    r@ == (ConversationRow { updated_at: now@, ..c@ })
                {
                    let mut d = c.clone();
                    d.updated_at = now.to_owned();
                    d
                },
            Ghost(is_conversation(id@)),
            Ghost(|c: ConversationRow<Seq<char>>| ConversationRow { updated_at: now@, ..c }),
        );
    }
}

} // verus!
