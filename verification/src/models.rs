//! What the application stores, takes as input and hands out.
//!
//! A record is generic over its text: with `String` it is the value that the
//! program handles, with `Seq<char>` it is the view of that value, which the
//! contracts speak of. A sampling temperature is kept as the bit pattern of a
//! single precision number.
use vstd::prelude::*;
use crate::table::Record;
use crate::text::opt_text;

verus! {

/// A copy of an optional string.
pub fn copy_opt(s: &Option<String>) -> (r: Option<String>)
    ensures
        r == *s,
{
    match s {
        Some(t) => Some(t.clone()),
        None => None,
    }
}

/// How many tokens a reply took.
#[derive(Clone, Copy, Debug, PartialEq, Eq, Structural)]
pub struct TokenUsage {
    pub prompt: i64,
    pub completion: i64,
    pub total: i64,
}

impl TokenUsage {
    /// No tokens at all.
    pub open spec fn zero() -> TokenUsage {
        TokenUsage { prompt: 0, completion: 0, total: 0 }
    }
}

impl Default for TokenUsage {
    fn default() -> (r: Self)
        ensures
            r == TokenUsage::zero(),
    {
        TokenUsage { prompt: 0, completion: 0, total: 0 }
    }
}

/// A conversation as it is listed.
#[verifier::ext_equal]
#[derive(Debug)]
pub struct Conversation<S = String> {
    pub id: S,
    pub title: S,
    pub created_at: S,
    pub updated_at: S,
    pub is_pinned: bool,
    pub message_count: i64,
    pub model_override: S,
    pub provider_override: S,
    pub base_url_override: S,
    pub temperature_override: Option<u32>,
    pub max_tokens_override: Option<i64>,
    pub max_context_tokens_override: Option<i64>,
    pub max_recent_messages_override: Option<i64>,
    pub max_memory_items_override: Option<i64>,
    pub system_prompt: S,
    pub thinking_override: S,
    pub reasoning_effort_override: S,
}

impl View for Conversation<String> {
    type V = Conversation<Seq<char>>;

    open spec fn view(&self) -> Conversation<Seq<char>> {
        Conversation {
            id: self.id@,
            title: self.title@,
            created_at: self.created_at@,
            updated_at: self.updated_at@,
            is_pinned: self.is_pinned,
            message_count: self.message_count,
            model_override: self.model_override@,
            provider_override: self.provider_override@,
            base_url_override: self.base_url_override@,
            temperature_override: self.temperature_override,
            max_tokens_override: self.max_tokens_override,
            max_context_tokens_override: self.max_context_tokens_override,
            max_recent_messages_override: self.max_recent_messages_override,
            max_memory_items_override: self.max_memory_items_override,
            system_prompt: self.system_prompt@,
            thinking_override: self.thinking_override@,
            reasoning_effort_override: self.reasoning_effort_override@,
        }
    }
}

impl Clone for Conversation<String> {
    fn clone(&self) -> (r: Self)
        ensures
            r == *self,
    {
        Conversation {
            id: self.id.clone(),
            title: self.title.clone(),
            created_at: self.created_at.clone(),
            updated_at: self.updated_at.clone(),
            is_pinned: self.is_pinned,
            message_count: self.message_count,
            model_override: self.model_override.clone(),
            provider_override: self.provider_override.clone(),
            base_url_override: self.base_url_override.clone(),
            temperature_override: self.temperature_override,
            max_tokens_override: self.max_tokens_override,
            max_context_tokens_override: self.max_context_tokens_override,
            max_recent_messages_override: self.max_recent_messages_override,
            max_memory_items_override: self.max_memory_items_override,
            system_prompt: self.system_prompt.clone(),
            thinking_override: self.thinking_override.clone(),
            reasoning_effort_override: self.reasoning_effort_override.clone(),
        }
    }
}

impl Record for Conversation<String> {
    fn copied(&self) -> (r: Self) {
        self.clone()
    }
}

/// One message of a conversation; a deleted one carries the time and the reason.
#[verifier::ext_equal]
#[derive(Debug)]
pub struct Message<S = String> {
    pub id: S,
    pub conversation_id: S,
    pub role: S,
    pub content: S,
    pub reasoning_content: S,
    pub token_usage: TokenUsage,
    pub created_at: S,
    pub updated_at: S,
    pub deleted_at: Option<S>,
    pub deleted_reason: S,
}

impl View for Message<String> {
    type V = Message<Seq<char>>;

    open spec fn view(&self) -> Message<Seq<char>> {
        Message {
            id: self.id@,
            conversation_id: self.conversation_id@,
            role: self.role@,
            content: self.content@,
            reasoning_content: self.reasoning_content@,
            token_usage: self.token_usage,
            created_at: self.created_at@,
            updated_at: self.updated_at@,
            deleted_at: opt_text(self.deleted_at),
            deleted_reason: self.deleted_reason@,
        }
    }
}

impl Clone for Message<String> {
    fn clone(&self) -> (r: Self)
        ensures
            r == *self,
    {
        Message {
            id: self.id.clone(),
            conversation_id: self.conversation_id.clone(),
            role: self.role.clone(),
            content: self.content.clone(),
            reasoning_content: self.reasoning_content.clone(),
            token_usage: self.token_usage,
            created_at: self.created_at.clone(),
            updated_at: self.updated_at.clone(),
            deleted_at: copy_opt(&self.deleted_at),
            deleted_reason: self.deleted_reason.clone(),
        }
    }
}

impl Record for Message<String> {
    fn copied(&self) -> (r: Self) {
        self.clone()
    }
}

/// A memory as it is listed, with what is known of its source.
#[verifier::ext_equal]
#[derive(Debug)]
pub struct Memory<S = String> {
    pub id: S,
    pub content: S,
    pub importance: i64,
    pub created_at: S,
    pub updated_at: S,
    pub last_used_at: S,
    pub scope: S,
    pub conversation_id: Option<S>,
    pub source_message_id: Option<S>,
    pub source_conversation_id: Option<S>,
    pub source_conversation_title: Option<S>,
    pub source_message_preview: Option<S>,
    pub source_conversation_deleted: bool,
    pub source_message_deleted: bool,
}

impl View for Memory<String> {
    type V = Memory<Seq<char>>;

    open spec fn view(&self) -> Memory<Seq<char>> {
        Memory {
            id: self.id@,
            content: self.content@,
            importance: self.importance,
            created_at: self.created_at@,
            updated_at: self.updated_at@,
            last_used_at: self.last_used_at@,
            scope: self.scope@,
            conversation_id: opt_text(self.conversation_id),
            source_message_id: opt_text(self.source_message_id),
            source_conversation_id: opt_text(self.source_conversation_id),
            source_conversation_title: opt_text(self.source_conversation_title),
            source_message_preview: opt_text(self.source_message_preview),
            source_conversation_deleted: self.source_conversation_deleted,
            source_message_deleted: self.source_message_deleted,
        }
    }
}

impl Clone for Memory<String> {
    fn clone(&self) -> (r: Self)
        ensures
            r == *self,
    {
        Memory {
            id: self.id.clone(),
            content: self.content.clone(),
            importance: self.importance,
            created_at: self.created_at.clone(),
            updated_at: self.updated_at.clone(),
            last_used_at: self.last_used_at.clone(),
            scope: self.scope.clone(),
            conversation_id: copy_opt(&self.conversation_id),
            source_message_id: copy_opt(&self.source_message_id),
            source_conversation_id: copy_opt(&self.source_conversation_id),
            source_conversation_title: copy_opt(&self.source_conversation_title),
            source_message_preview: copy_opt(&self.source_message_preview),
            source_conversation_deleted: self.source_conversation_deleted,
            source_message_deleted: self.source_message_deleted,
        }
    }
}

impl Record for Memory<String> {
    fn copied(&self) -> (r: Self) {
        self.clone()
    }
}

/// A text file attached to a conversation.
#[verifier::ext_equal]
#[derive(Debug)]
pub struct ConversationFile<S = String> {
    pub id: S,
    pub conversation_id: S,
    pub file_name: S,
    pub file_path: S,
    pub file_size: i64,
    pub content_text: S,
    pub summary: S,
    pub created_at: S,
    pub deleted_at: Option<S>,
}

impl View for ConversationFile<String> {
    type V = ConversationFile<Seq<char>>;

    open spec fn view(&self) -> ConversationFile<Seq<char>> {
        ConversationFile {
            id: self.id@,
            conversation_id: self.conversation_id@,
            file_name: self.file_name@,
            file_path: self.file_path@,
            file_size: self.file_size,
            content_text: self.content_text@,
            summary: self.summary@,
            created_at: self.created_at@,
            deleted_at: opt_text(self.deleted_at),
        }
    }
}

impl Clone for ConversationFile<String> {
    fn clone(&self) -> (r: Self)
        ensures
            r == *self,
    {
        ConversationFile {
            id: self.id.clone(),
            conversation_id: self.conversation_id.clone(),
            file_name: self.file_name.clone(),
            file_path: self.file_path.clone(),
            file_size: self.file_size,
            content_text: self.content_text.clone(),
            summary: self.summary.clone(),
            created_at: self.created_at.clone(),
            deleted_at: copy_opt(&self.deleted_at),
        }
    }
}

impl Record for ConversationFile<String> {
    fn copied(&self) -> (r: Self) {
        self.clone()
    }
}

/// What is known of the user.
#[verifier::ext_equal]
#[derive(Debug)]
pub struct UserProfile<S = String> {
    pub preferred_name: S,
    pub long_term_goals: S,
    pub interests: S,
    pub important_experiences: S,
    pub language_preference: S,
    pub notes: S,
    pub updated_at: S,
}

impl View for UserProfile<String> {
    type V = UserProfile<Seq<char>>;

    open spec fn view(&self) -> UserProfile<Seq<char>> {
        UserProfile {
            preferred_name: self.preferred_name@,
            long_term_goals: self.long_term_goals@,
            interests: self.interests@,
            important_experiences: self.important_experiences@,
            language_preference: self.language_preference@,
            notes: self.notes@,
            updated_at: self.updated_at@,
        }
    }
}

impl Clone for UserProfile<String> {
    fn clone(&self) -> (r: Self)
        ensures
            r == *self,
    {
        UserProfile {
            preferred_name: self.preferred_name.clone(),
            long_term_goals: self.long_term_goals.clone(),
            interests: self.interests.clone(),
            important_experiences: self.important_experiences.clone(),
            language_preference: self.language_preference.clone(),
            notes: self.notes.clone(),
            updated_at: self.updated_at.clone(),
        }
    }
}

impl Record for UserProfile<String> {
    fn copied(&self) -> (r: Self) {
        self.clone()
    }
}

/// How the user wants to be answered.
#[verifier::ext_equal]
#[derive(Debug)]
pub struct StyleProfile<S = String> {
    pub detail_level: S,
    pub tone: S,
    pub technical_level: S,
    pub language_style: S,
    pub explicit_preferences: S,
    pub updated_at: S,
}

impl View for StyleProfile<String> {
    type V = StyleProfile<Seq<char>>;

    open spec fn view(&self) -> StyleProfile<Seq<char>> {
        StyleProfile {
            detail_level: self.detail_level@,
            tone: self.tone@,
            technical_level: self.technical_level@,
            language_style: self.language_style@,
            explicit_preferences: self.explicit_preferences@,
            updated_at: self.updated_at@,
        }
    }
}

impl Clone for StyleProfile<String> {
    fn clone(&self) -> (r: Self)
        ensures
            r == *self,
    {
        StyleProfile {
            detail_level: self.detail_level.clone(),
            tone: self.tone.clone(),
            technical_level: self.technical_level.clone(),
            language_style: self.language_style.clone(),
            explicit_preferences: self.explicit_preferences.clone(),
            updated_at: self.updated_at.clone(),
        }
    }
}

impl Record for StyleProfile<String> {
    fn copied(&self) -> (r: Self) {
        self.clone()
    }
}

/// The summary of one segment of a conversation.
#[verifier::ext_equal]
#[derive(Debug)]
pub struct SummaryRecord<S = String> {
    pub conversation_id: S,
    pub segment_index: i64,
    pub summary: S,
    pub covered_start_message_id: S,
    pub covered_end_message_id: S,
    pub covered_start_created_at: S,
    pub covered_end_created_at: S,
    pub source_message_count: i64,
    pub updated_at: S,
}

impl View for SummaryRecord<String> {
    type V = SummaryRecord<Seq<char>>;

    open spec fn view(&self) -> SummaryRecord<Seq<char>> {
        SummaryRecord {
            conversation_id: self.conversation_id@,
            segment_index: self.segment_index,
            summary: self.summary@,
            covered_start_message_id: self.covered_start_message_id@,
            covered_end_message_id: self.covered_end_message_id@,
            covered_start_created_at: self.covered_start_created_at@,
            covered_end_created_at: self.covered_end_created_at@,
            source_message_count: self.source_message_count,
            updated_at: self.updated_at@,
        }
    }
}

impl Clone for SummaryRecord<String> {
    fn clone(&self) -> (r: Self)
        ensures
            r == *self,
    {
        SummaryRecord {
            conversation_id: self.conversation_id.clone(),
            segment_index: self.segment_index,
            summary: self.summary.clone(),
            covered_start_message_id: self.covered_start_message_id.clone(),
            covered_end_message_id: self.covered_end_message_id.clone(),
            covered_start_created_at: self.covered_start_created_at.clone(),
            covered_end_created_at: self.covered_end_created_at.clone(),
            source_message_count: self.source_message_count,
            updated_at: self.updated_at.clone(),
        }
    }
}

impl Record for SummaryRecord<String> {
    fn copied(&self) -> (r: Self) {
        self.clone()
    }
}

/// The settings that hold for every conversation without its own.
#[verifier::ext_equal]
#[derive(Debug)]
pub struct ChatSettings<S = String> {
    pub provider: S,
    pub base_url: S,
    pub model: S,
    pub temperature: u32,
    pub max_tokens: i64,
    pub max_context_tokens: i64,
    pub max_recent_messages: i64,
    pub max_memory_items: i64,
    pub txt_max_file_bytes: i64,
}

impl View for ChatSettings<String> {
    type V = ChatSettings<Seq<char>>;

    open spec fn view(&self) -> ChatSettings<Seq<char>> {
        ChatSettings {
            provider: self.provider@,
            base_url: self.base_url@,
            model: self.model@,
            temperature: self.temperature,
            max_tokens: self.max_tokens,
            max_context_tokens: self.max_context_tokens,
            max_recent_messages: self.max_recent_messages,
            max_memory_items: self.max_memory_items,
            txt_max_file_bytes: self.txt_max_file_bytes,
        }
    }
}

impl Clone for ChatSettings<String> {
    fn clone(&self) -> (r: Self)
        ensures
            r == *self,
    {
        ChatSettings {
            provider: self.provider.clone(),
            base_url: self.base_url.clone(),
            model: self.model.clone(),
            temperature: self.temperature,
            max_tokens: self.max_tokens,
            max_context_tokens: self.max_context_tokens,
            max_recent_messages: self.max_recent_messages,
            max_memory_items: self.max_memory_items,
            txt_max_file_bytes: self.txt_max_file_bytes,
        }
    }
}

impl Record for ChatSettings<String> {
    fn copied(&self) -> (r: Self) {
        self.clone()
    }
}

/// The settings of one conversation; what is empty falls back to the general ones.
#[verifier::ext_equal]
#[derive(Debug)]
pub struct ChatOverrides<S = String> {
    pub provider: S,
    pub model: S,
    pub base_url: S,
    pub temperature: Option<u32>,
    pub max_tokens: Option<i64>,
    pub max_context_tokens: Option<i64>,
    pub max_recent_messages: Option<i64>,
    pub max_memory_items: Option<i64>,
    pub system_prompt: S,
    pub thinking: S,
    pub reasoning_effort: S,
}

impl View for ChatOverrides<String> {
    type V = ChatOverrides<Seq<char>>;

    open spec fn view(&self) -> ChatOverrides<Seq<char>> {
        ChatOverrides {
            provider: self.provider@,
            model: self.model@,
            base_url: self.base_url@,
            temperature: self.temperature,
            max_tokens: self.max_tokens,
            max_context_tokens: self.max_context_tokens,
            max_recent_messages: self.max_recent_messages,
            max_memory_items: self.max_memory_items,
            system_prompt: self.system_prompt@,
            thinking: self.thinking@,
            reasoning_effort: self.reasoning_effort@,
        }
    }
}

impl Clone for ChatOverrides<String> {
    fn clone(&self) -> (r: Self)
        ensures
            r == *self,
    {
        ChatOverrides {
            provider: self.provider.clone(),
            model: self.model.clone(),
            base_url: self.base_url.clone(),
            temperature: self.temperature,
            max_tokens: self.max_tokens,
            max_context_tokens: self.max_context_tokens,
            max_recent_messages: self.max_recent_messages,
            max_memory_items: self.max_memory_items,
            system_prompt: self.system_prompt.clone(),
            thinking: self.thinking.clone(),
            reasoning_effort: self.reasoning_effort.clone(),
        }
    }
}

impl Record for ChatOverrides<String> {
    fn copied(&self) -> (r: Self) {
        self.clone()
    }
}

/// A message as it is sent to a model.
#[verifier::ext_equal]
#[derive(Debug)]
pub struct ApiMessage<S = String> {
    pub role: S,
    pub content: S,
    pub reasoning_content: Option<S>,
}

impl View for ApiMessage<String> {
    type V = ApiMessage<Seq<char>>;

    open spec fn view(&self) -> ApiMessage<Seq<char>> {
        ApiMessage {
            role: self.role@,
            content: self.content@,
            reasoning_content: opt_text(self.reasoning_content),
        }
    }
}

impl Clone for ApiMessage<String> {
    fn clone(&self) -> (r: Self)
        ensures
            r == *self,
    {
        ApiMessage {
            role: self.role.clone(),
            content: self.content.clone(),
            reasoning_content: copy_opt(&self.reasoning_content),
        }
    }
}

impl Record for ApiMessage<String> {
    fn copied(&self) -> (r: Self) {
        self.clone()
    }
}

/// How a model is called.
#[verifier::ext_equal]
#[derive(Debug)]
pub struct ApiRuntimeConfig<S = String> {
    pub api_key: S,
    pub base_url: S,
    pub model: S,
    pub temperature: u32,
    pub max_tokens: i64,
    pub include_temperature: bool,
    pub deepseek_thinking_type: Option<S>,
    pub deepseek_reasoning_effort: Option<S>,
}

impl View for ApiRuntimeConfig<String> {
    type V = ApiRuntimeConfig<Seq<char>>;

    open spec fn view(&self) -> ApiRuntimeConfig<Seq<char>> {
        ApiRuntimeConfig {
            api_key: self.api_key@,
            base_url: self.base_url@,
            model: self.model@,
            temperature: self.temperature,
            max_tokens: self.max_tokens,
            include_temperature: self.include_temperature,
            deepseek_thinking_type: opt_text(self.deepseek_thinking_type),
            deepseek_reasoning_effort: opt_text(self.deepseek_reasoning_effort),
        }
    }
}

impl Clone for ApiRuntimeConfig<String> {
    fn clone(&self) -> (r: Self)
        ensures
            r == *self,
    {
        ApiRuntimeConfig {
            api_key: self.api_key.clone(),
            base_url: self.base_url.clone(),
            model: self.model.clone(),
            temperature: self.temperature,
            max_tokens: self.max_tokens,
            include_temperature: self.include_temperature,
            deepseek_thinking_type: copy_opt(&self.deepseek_thinking_type),
            deepseek_reasoning_effort: copy_opt(&self.deepseek_reasoning_effort),
        }
    }
}

impl Record for ApiRuntimeConfig<String> {
    fn copied(&self) -> (r: Self) {
        self.clone()
    }
}

/// One stored setting.
#[verifier::ext_equal]
#[derive(Debug)]
pub struct Setting<S = String> {
    pub key: S,
    pub value: S,
    pub updated_at: S,
}

impl View for Setting<String> {
    type V = Setting<Seq<char>>;

    open spec fn view(&self) -> Setting<Seq<char>> {
        Setting {
            key: self.key@,
            value: self.value@,
            updated_at: self.updated_at@,
        }
    }
}

impl Clone for Setting<String> {
    fn clone(&self) -> (r: Self)
        ensures
            r == *self,
    {
        Setting {
            key: self.key.clone(),
            value: self.value.clone(),
            updated_at: self.updated_at.clone(),
        }
    }
}

impl Record for Setting<String> {
    fn copied(&self) -> (r: Self) {
        self.clone()
    }
}

/// A stored conversation.
#[verifier::ext_equal]
#[derive(Debug)]
pub struct ConversationRow<S = String> {
    pub id: S,
    pub title: S,
    pub created_at: S,
    pub updated_at: S,
    pub model_override: S,
    pub provider_override: S,
    pub base_url_override: S,
    pub temperature_override: Option<u32>,
    pub max_tokens_override: Option<i64>,
    pub max_context_tokens_override: Option<i64>,
    pub max_recent_messages_override: Option<i64>,
    pub max_memory_items_override: Option<i64>,
    pub system_prompt: S,
    pub thinking_override: S,
    pub reasoning_effort_override: S,
    pub is_pinned: bool,
    pub sort_index: i64,
}

impl View for ConversationRow<String> {
    type V = ConversationRow<Seq<char>>;

    open spec fn view(&self) -> ConversationRow<Seq<char>> {
        ConversationRow {
            id: self.id@,
            title: self.title@,
            created_at: self.created_at@,
            updated_at: self.updated_at@,
            model_override: self.model_override@,
            provider_override: self.provider_override@,
            base_url_override: self.base_url_override@,
            temperature_override: self.temperature_override,
            max_tokens_override: self.max_tokens_override,
            max_context_tokens_override: self.max_context_tokens_override,
            max_recent_messages_override: self.max_recent_messages_override,
            max_memory_items_override: self.max_memory_items_override,
            system_prompt: self.system_prompt@,
            thinking_override: self.thinking_override@,
            reasoning_effort_override: self.reasoning_effort_override@,
            is_pinned: self.is_pinned,
            sort_index: self.sort_index,
        }
    }
}

impl Clone for ConversationRow<String> {
    fn clone(&self) -> (r: Self)
        ensures
            r == *self,
    {
        ConversationRow {
            id: self.id.clone(),
            title: self.title.clone(),
            created_at: self.created_at.clone(),
            updated_at: self.updated_at.clone(),
            model_override: self.model_override.clone(),
            provider_override: self.provider_override.clone(),
            base_url_override: self.base_url_override.clone(),
            temperature_override: self.temperature_override,
            max_tokens_override: self.max_tokens_override,
            max_context_tokens_override: self.max_context_tokens_override,
            max_recent_messages_override: self.max_recent_messages_override,
            max_memory_items_override: self.max_memory_items_override,
            system_prompt: self.system_prompt.clone(),
            thinking_override: self.thinking_override.clone(),
            reasoning_effort_override: self.reasoning_effort_override.clone(),
            is_pinned: self.is_pinned,
            sort_index: self.sort_index,
        }
    }
}

impl Record for ConversationRow<String> {
    fn copied(&self) -> (r: Self) {
        self.clone()
    }
}

/// A stored memory.
#[verifier::ext_equal]
#[derive(Debug)]
pub struct MemoryRow<S = String> {
    pub id: S,
    pub content: S,
    pub normalized_content: S,
    pub importance: i64,
    pub created_at: S,
    pub updated_at: S,
    pub last_used_at: S,
    pub scope: S,
    pub conversation_id: Option<S>,
    pub source_message_id: Option<S>,
    pub source_conversation_id: Option<S>,
}

impl View for MemoryRow<String> {
    type V = MemoryRow<Seq<char>>;

    open spec fn view(&self) -> MemoryRow<Seq<char>> {
        MemoryRow {
            id: self.id@,
            content: self.content@,
            normalized_content: self.normalized_content@,
            importance: self.importance,
            created_at: self.created_at@,
            updated_at: self.updated_at@,
            last_used_at: self.last_used_at@,
            scope: self.scope@,
            conversation_id: opt_text(self.conversation_id),
            source_message_id: opt_text(self.source_message_id),
            source_conversation_id: opt_text(self.source_conversation_id),
        }
    }
}

impl Clone for MemoryRow<String> {
    fn clone(&self) -> (r: Self)
        ensures
            r == *self,
    {
        MemoryRow {
            id: self.id.clone(),
            content: self.content.clone(),
            normalized_content: self.normalized_content.clone(),
            importance: self.importance,
            created_at: self.created_at.clone(),
            updated_at: self.updated_at.clone(),
            last_used_at: self.last_used_at.clone(),
            scope: self.scope.clone(),
            conversation_id: copy_opt(&self.conversation_id),
            source_message_id: copy_opt(&self.source_message_id),
            source_conversation_id: copy_opt(&self.source_conversation_id),
        }
    }
}

impl Record for MemoryRow<String> {
    fn copied(&self) -> (r: Self) {
        self.clone()
    }
}

/// A stored segment summary.
#[verifier::ext_equal]
#[derive(Debug)]
pub struct SummaryRow<S = String> {
    pub id: S,
    pub conversation_id: S,
    pub segment_index: i64,
    pub summary: S,
    pub covered_start_message_id: S,
    pub covered_end_message_id: S,
    pub covered_start_created_at: S,
    pub covered_end_created_at: S,
    pub source_message_count: i64,
    pub created_at: S,
    pub updated_at: S,
}

impl View for SummaryRow<String> {
    type V = SummaryRow<Seq<char>>;

    open spec fn view(&self) -> SummaryRow<Seq<char>> {
        SummaryRow {
            id: self.id@,
            conversation_id: self.conversation_id@,
            segment_index: self.segment_index,
            summary: self.summary@,
            covered_start_message_id: self.covered_start_message_id@,
            covered_end_message_id: self.covered_end_message_id@,
            covered_start_created_at: self.covered_start_created_at@,
            covered_end_created_at: self.covered_end_created_at@,
            source_message_count: self.source_message_count,
            created_at: self.created_at@,
            updated_at: self.updated_at@,
        }
    }
}

impl Clone for SummaryRow<String> {
    fn clone(&self) -> (r: Self)
        ensures
            r == *self,
    {
        SummaryRow {
            id: self.id.clone(),
            conversation_id: self.conversation_id.clone(),
            segment_index: self.segment_index,
            summary: self.summary.clone(),
            covered_start_message_id: self.covered_start_message_id.clone(),
            covered_end_message_id: self.covered_end_message_id.clone(),
            covered_start_created_at: self.covered_start_created_at.clone(),
            covered_end_created_at: self.covered_end_created_at.clone(),
            source_message_count: self.source_message_count,
            created_at: self.created_at.clone(),
            updated_at: self.updated_at.clone(),
        }
    }
}

impl Record for SummaryRow<String> {
    fn copied(&self) -> (r: Self) {
        self.clone()
    }
}

/// All that the settings page shows.
#[derive(Clone, Debug)]
pub struct AppSettingsPayload {
    pub chat: ChatSettings,
    pub last_conversation_id: String,
    pub theme_mode: String,
    pub models: Vec<String>,
}

/// A piece of a reply on its way to the window.
#[derive(Clone, Debug)]
pub struct StreamTokenPayload {
    pub request_id: String,
    pub conversation_id: String,
    pub token: String,
}

/// A finished reply.
#[derive(Clone, Debug)]
pub struct StreamDonePayload {
    pub request_id: String,
    pub conversation_id: String,
    pub user_message_id: String,
    pub message_id: String,
    pub content: String,
    pub reasoning_content: String,
}

/// A reply that failed.
#[derive(Clone, Debug)]
pub struct StreamErrorPayload {
    pub request_id: String,
    pub conversation_id: String,
    pub error: String,
}

/// A message to send.
#[derive(Clone, Debug)]
pub struct SendMessageInput {
    pub conversation_id: String,
    pub content: String,
}

/// A user message to rewrite and answer anew.
#[derive(Clone, Debug)]
pub struct EditMessageInput {
    pub message_id: String,
    pub new_content: String,
}

/// A user message to answer anew.
#[derive(Clone, Debug)]
pub struct RegenerateInput {
    pub user_message_id: String,
}

/// A message to delete.
#[derive(Clone, Debug)]
pub struct DeleteMessageInput {
    pub message_id: String,
    pub soft: Option<bool>,
    pub reason: Option<String>,
}

/// Which conversations to list.
#[derive(Clone, Debug)]
pub struct ListInput {
    pub query: Option<String>,
    pub limit: Option<i64>,
}

/// Which memories to list.
#[derive(Clone, Debug)]
pub struct ListMemoriesInput {
    pub conversation_id: Option<String>,
    pub limit: Option<i64>,
}

/// The new scope of a memory.
#[derive(Clone, Debug)]
pub struct UpdateMemoryScopeInput {
    pub memory_id: String,
    pub conversation_id: Option<String>,
    pub make_global: bool,
}

/// The model of a conversation.
#[derive(Clone, Debug)]
pub struct SetConversationModelInput {
    pub conversation_id: String,
    pub model: String,
}

/// The settings of a conversation.
#[derive(Clone, Debug)]
pub struct SetConversationChatSettingsInput {
    pub conversation_id: String,
    pub provider: String,
    pub model: String,
    pub base_url: String,
    pub temperature_override: Option<u32>,
    pub max_tokens_override: Option<i64>,
    pub max_context_tokens_override: Option<i64>,
    pub max_recent_messages_override: Option<i64>,
    pub max_memory_items_override: Option<i64>,
    pub system_prompt: Option<String>,
    pub thinking_override: Option<String>,
    pub reasoning_effort_override: Option<String>,
}

/// A conversation.
#[derive(Clone, Debug)]
pub struct ConversationIdInput {
    pub conversation_id: String,
}

/// A new title.
#[derive(Clone, Debug)]
pub struct RenameConversationInput {
    pub conversation_id: String,
    pub title: String,
}

/// Whether a conversation is pinned.
#[derive(Clone, Debug)]
pub struct SetConversationPinnedInput {
    pub conversation_id: String,
    pub pinned: bool,
}

/// A step up or down in the list.
#[derive(Clone, Debug)]
pub struct MoveConversationInput {
    pub conversation_id: String,
    pub direction: String,
}

/// A conversation to create.
#[derive(Clone, Debug)]
pub struct CreateConversationInput {
    pub title: Option<String>,
}

/// Which messages to list.
#[derive(Clone, Debug)]
pub struct ListMessagesInput {
    pub conversation_id: String,
    pub limit: Option<i64>,
    pub offset: Option<i64>,
}

/// A key to store for a provider.
#[derive(Clone, Debug)]
pub struct SaveApiKeyInput {
    pub provider: String,
    pub api_key: String,
}

/// A file to read.
#[derive(Clone, Debug)]
pub struct ImportJsonInput {
    pub file_path: String,
}

/// How much was imported.
#[derive(Clone, Copy, Debug, PartialEq, Eq, Structural)]
pub struct ImportResult {
    pub imported_conversations: usize,
    pub imported_messages: usize,
}

/// Where a backup was written.
#[derive(Clone, Debug)]
pub struct BackupResult {
    pub path: String,
}

/// A text file to attach.
#[derive(Clone, Debug)]
pub struct UploadTxtFileInput {
    pub conversation_id: String,
    pub file_name: String,
    pub content_text: String,
    pub file_size: i64,
}

/// Which attachments to list.
#[derive(Clone, Debug)]
pub struct ListConversationFilesInput {
    pub conversation_id: String,
    pub limit: Option<i64>,
}

/// An attachment to delete.
#[derive(Clone, Debug)]
pub struct DeleteConversationFileInput {
    pub file_id: String,
}

} // verus!
