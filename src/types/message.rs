use vstd::prelude::*;

verus! {

/// File attachment information
#[derive(Debug, Clone)]
pub struct File {
    pub version: Option<i64>,
    pub id: Option<String>,
    pub base_url: Option<String>,
    pub title: Option<String>,
    pub object_url: Option<String>,
    pub item_id: Option<String>,
    pub file_name: Option<String>,
    pub file_type: Option<String>,
    pub file_info: FileInfo,
}

/// File info details
#[derive(Debug, Clone)]
pub struct FileInfo {
    pub item_id: Option<String>,
    pub file_url: Option<String>,
    pub site_url: Option<String>,
    pub server_relative_url: Option<String>,
    pub share_url: Option<String>,
    pub share_id: Option<String>,
}

/// Emoji reaction user
#[derive(Debug, Clone)]
pub struct EmotionUser {
    pub mri: String,
    pub time: u64,
    pub value: String,
}

/// Emoji reaction
#[derive(Debug, Clone)]
pub struct Emotion {
    pub key: String,
    pub users: Vec<EmotionUser>,
}

/// Card button
#[derive(Debug, Clone)]
pub struct CardContentButton {
    pub button_type: String,
    pub title: String,
    pub value: String,
}

/// Card content
#[derive(Debug, Clone)]
pub struct CardContent {
    pub text: Option<String>,
    pub component_url: Option<String>,
    pub source_type: Option<String>,
    pub buttons: Option<Vec<CardContentButton>>,
}

/// Card attachment
#[derive(Debug, Clone)]
pub struct Card {
    pub app_id: Option<String>,
    pub app_name: Option<String>,
    pub app_icon: Option<String>,
    pub card_client_id: String,
    pub content: CardContent,
    pub content_type: String,
    pub preview_hidden: Option<bool>,
}

/// Activity context
#[derive(Debug, Clone)]
pub struct ActivityContext {
    pub teams_app_id: Option<String>,
    pub location: Option<String>,
    pub template_parameter: Option<String>,
}

/// Activity information
#[derive(Debug, Clone)]
pub struct Activity {
    pub activity_type: String,
    pub activity_subtype: Option<String>,
    pub activity_timestamp: String,
    pub activity_id: u64,
    pub source_message_id: u64,
    pub source_reply_chain_id: Option<u64>,
    pub source_user_id: String,
    pub source_user_im_display_name: Option<String>,
    pub target_user_id: String,
    pub source_thread_id: String,
    pub message_preview: String,
    pub source_thread_topic: Option<String>,
    pub activity_context: ActivityContext,
}

/// Message properties
#[derive(Debug, Clone, Default)]
pub struct MessageProperties {
    pub edittime: i64,
    pub subject: Option<String>,
    pub files: Option<Vec<File>>,
    pub cards: Option<Vec<Card>>,
    pub deletetime: i64,
    pub systemdelete: bool,
    pub title: Option<String>,
    pub emotions: Option<Vec<Emotion>>,
    pub is_read: Option<bool>,
    pub activity: Option<Activity>,
}

/// Chat/Team message
#[derive(Debug, Clone)]
pub struct Message {
    pub content: Option<String>,
    pub from: Option<String>,
    pub im_display_name: Option<String>,
    pub message_type: Option<String>,
    pub properties: Option<MessageProperties>,
    pub compose_time: Option<String>,
    pub original_arrival_time: Option<String>,
    pub conversation_link: Option<String>,
    pub id: Option<String>,
    pub container_id: Option<String>,
}

/// Conversations response
#[derive(Debug, Clone)]
pub struct Conversations {
    pub messages: Vec<Message>,
}

/// Message to send
#[derive(Debug, Clone)]
pub struct TeamsMessage<'a> {
    pub id: &'a str,
    pub msg_type: &'a str,
    pub conversationid: &'a str,
    pub conversation_link: &'a str,
    pub from: &'a str,
    pub composetime: &'a str,
    pub originalarrivaltime: &'a str,
    pub content: &'a str,
    pub messagetype: &'a str,
    pub contenttype: &'a str,
    pub imdisplayname: Option<&'a str>,
    pub clientmessageid: &'a str,
    pub call_id: &'a str,
    pub state: i32,
    pub version: &'a str,
    pub amsreferences: Vec<&'a str>,
    pub properties: MessageProperties,
    pub post_type: &'a str,
    pub cross_post_channels: Vec<&'a str>,
}

/// Message properties for sending
#[derive(Debug, Clone, Default)]
pub struct SendMessageProperties {
    pub importance: String,
    pub subject: Option<String>,
    pub title: String,
    pub cards: String,
    pub links: String,
    pub mentions: String,
    pub onbehalfof: Option<String>,
    pub files: String,
    pub policy_violation: Option<String>,
    pub format_variant: String,
}

} // verus!
