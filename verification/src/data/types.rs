//! The records kept for chat and conversation storage.

use vstd::prelude::*;

verus! {

/// A file attached to a chat message.
#[derive(Debug, Clone)]
pub struct MessageAttachment {
    pub id: String,
    pub attachment_type: String,
    pub name: String,
    pub size: i64,
    pub mime_type: String,
    pub url: Option<String>,
    pub base64_data: Option<String>,
    pub thumbnail: Option<String>,
    pub extracted_text: Option<String>,
    pub dimensions: Option<FileDimensions>,
    pub upload_progress: Option<i32>,
    pub upload_status: Option<String>,
    pub error: Option<String>,
}

/// The pixel size of an attached image.
#[derive(Debug, Clone, Copy)]
pub struct FileDimensions {
    pub width: i32,
    pub height: i32,
}

/// The reasoning an assistant showed while answering.
#[derive(Debug, Clone)]
pub struct ThinkingProcess {
    pub is_visible: bool,
    pub content: String,
    pub is_streaming: bool,
    pub steps: Option<Vec<ThinkingStep>>,
}

/// One step of a thinking process.
#[derive(Debug, Clone)]
pub struct ThinkingStep {
    pub id: String,
    pub title: String,
    pub content: String,
    pub timestamp: String,
    pub status: String,
}

/// One transcribed utterance of an audio conversation.
///
/// The transcription confidence is kept as the bit pattern of its `f64`
/// (`f64::to_bits`): this layer stores and replaces it, and never computes with it.
#[derive(Debug, Clone)]
pub struct ConversationMessage {
    pub id: String,
    pub message_type: String,
    pub source: String,
    pub content: String,
    pub timestamp: i64,
    pub confidence_bits: Option<u64>,
    pub is_preview: Option<bool>,
    pub is_typing: Option<bool>,
    pub persistence_state: Option<String>,
    pub retry_count: Option<i32>,
    pub last_save_attempt: Option<i64>,
    pub save_error: Option<String>,
}

/// An insight drawn from a conversation.
#[derive(Debug, Clone)]
pub struct ConversationInsight {
    pub id: String,
    pub text: String,
    pub timestamp: i64,
    pub context_length: i32,
    pub insight_type: String,
}

/// An audio conversation with its messages.
#[derive(Debug, Clone)]
pub struct ConversationSession {
    pub id: String,
    pub name: String,
    pub start_time: i64,
    pub end_time: Option<i64>,
    pub messages: Vec<ConversationMessage>,
    pub is_active: bool,
    pub insights: Vec<ConversationInsight>,
}

/// The fields of a message that an update may replace; `None` leaves a field as it is.
#[derive(Debug, Clone)]
pub struct ConversationMessageUpdate {
    pub content: Option<String>,
    pub confidence_bits: Option<u64>,
    pub timestamp: Option<i64>,
}

/// A backup file of the chat or conversation store.
#[derive(Debug, Clone)]
pub struct BackupInfo {
    pub filename: String,
    pub backup_type: String,
    pub size: u64,
    /// Seconds since the Unix epoch of the last modification.
    pub modified: i64,
}

} // verus!
