//! WhatsApp Cloud API types for webhook payloads and outbound messages.

use crate::json::Json;
use crate::text::same_text;
use vstd::prelude::*;

verus! {

/// Root webhook payload from WhatsApp Cloud API.
#[derive(Debug, Clone)]
pub struct WebhookPayload {
    /// Should always be "whatsapp_business_account".
    pub object: String,
    /// List of changes/events.
    pub entry: Vec<WebhookEntry>,
}

/// A single entry in the webhook payload.
#[derive(Debug, Clone)]
pub struct WebhookEntry {
    /// WhatsApp Business Account ID.
    pub id: String,
    /// List of changes within this entry.
    pub changes: Vec<WebhookChange>,
}

/// A change within a webhook entry.
#[derive(Debug, Clone)]
pub struct WebhookChange {
    /// Field that changed (e.g., "messages").
    pub field: String,
    /// The actual change data.
    pub value: WebhookValue,
}

/// The value containing messages, statuses, and metadata.
#[derive(Debug, Clone)]
pub struct WebhookValue {
    /// Messaging product (should be "whatsapp").
    pub messaging_product: Option<String>,
    /// Metadata about the WhatsApp Business phone number.
    pub metadata: Option<WebhookMetadata>,
    /// Contact information for the sender.
    pub contacts: Vec<WebhookContact>,
    /// Inbound messages.
    pub messages: Vec<InboundMessage>,
    /// Message delivery/read statuses.
    pub statuses: Vec<MessageStatus>,
    /// Errors, if any.
    pub errors: Vec<WebhookError>,
}

/// Metadata about the receiving WhatsApp Business phone number.
#[derive(Debug, Clone)]
pub struct WebhookMetadata {
    /// Display phone number (e.g., "+1 555 123 4567").
    pub display_phone_number: String,
    /// Phone number ID used for API calls.
    pub phone_number_id: String,
}

/// Contact information for the message sender.
#[derive(Debug, Clone)]
pub struct WebhookContact {
    /// WhatsApp ID (phone number without + prefix).
    pub wa_id: String,
    /// Profile information.
    pub profile: Option<ContactProfile>,
}

/// Profile information for a contact.
#[derive(Debug, Clone)]
pub struct ContactProfile {
    /// Display name set by the user.
    pub name: String,
}

/// An inbound message from WhatsApp.
#[derive(Debug, Clone)]
pub struct InboundMessage {
    /// Sender's WhatsApp ID (phone number).
    pub from: String,
    /// Unique message ID.
    pub id: String,
    /// Unix timestamp of the message.
    pub timestamp: String,
    /// Message type: text, image, document, audio, video, sticker,
    /// location, contacts, interactive, button, reaction. The place of a
    /// location message is not kept.
    pub message_type: String,
    /// Text message content.
    pub text: Option<TextContent>,
    /// Image content.
    pub image: Option<MediaContent>,
    /// Document content.
    pub document: Option<DocumentContent>,
    /// Audio content.
    pub audio: Option<MediaContent>,
    /// Video content.
    pub video: Option<MediaContent>,
    /// Sticker content.
    pub sticker: Option<MediaContent>,
    /// Interactive message response (list/button replies).
    pub interactive: Option<InteractiveContent>,
    /// Button reply content.
    pub button: Option<ButtonContent>,
    /// Reaction content.
    pub reaction: Option<ReactionContent>,
    /// Context (reply-to information).
    pub context: Option<MessageContext>,
}

/// Text message content.
#[derive(Debug, Clone)]
pub struct TextContent {
    /// The message text.
    pub body: String,
    /// Whether this is a preview URL message.
    pub preview_url: bool,
}

/// Media content (image, audio, video, sticker).
#[derive(Debug, Clone)]
pub struct MediaContent {
    /// Media ID for downloading via the API.
    pub id: String,
    /// MIME type of the media.
    pub mime_type: Option<String>,
    /// SHA256 hash of the media.
    pub sha256: Option<String>,
    /// Caption (for images/videos).
    pub caption: Option<String>,
}

/// Document content.
#[derive(Debug, Clone)]
pub struct DocumentContent {
    /// Media ID for downloading via the API.
    pub id: String,
    /// MIME type of the document.
    pub mime_type: Option<String>,
    /// SHA256 hash of the document.
    pub sha256: Option<String>,
    /// Filename of the document.
    pub filename: Option<String>,
    /// Caption.
    pub caption: Option<String>,
}

/// Interactive message response (button/list replies).
#[derive(Debug, Clone)]
pub struct InteractiveContent {
    /// Type of interactive response: "button_reply" or "list_reply".
    pub interactive_type: String,
    /// Button reply data.
    pub button_reply: Option<ButtonReply>,
    /// List reply data.
    pub list_reply: Option<ListReply>,
}

/// Button reply data.
#[derive(Debug, Clone)]
pub struct ButtonReply {
    /// Button ID.
    pub id: String,
    /// Button title/text.
    pub title: String,
}

/// List reply data.
#[derive(Debug, Clone)]
pub struct ListReply {
    /// Selected item ID.
    pub id: String,
    /// Selected item title.
    pub title: String,
    /// Selected item description.
    pub description: Option<String>,
}

/// Button content (quick reply buttons).
#[derive(Debug, Clone)]
pub struct ButtonContent {
    /// Button payload.
    pub payload: String,
    /// Button text.
    pub text: String,
}

/// Reaction content.
#[derive(Debug, Clone)]
pub struct ReactionContent {
    /// Message ID being reacted to.
    pub message_id: String,
    /// Emoji reaction (empty string means reaction removed).
    pub emoji: String,
}

/// Reply-to context.
#[derive(Debug, Clone)]
pub struct MessageContext {
    /// ID of the message being replied to.
    pub id: Option<String>,
    /// Sender of the message being replied to.
    pub from: Option<String>,
}

/// Message delivery/read status.
#[derive(Debug, Clone)]
pub struct MessageStatus {
    /// Message ID.
    pub id: String,
    /// Recipient's WhatsApp ID.
    pub recipient_id: String,
    /// Status: "sent", "delivered", "read", "failed".
    pub status: String,
    /// Unix timestamp.
    pub timestamp: String,
    /// Errors, if status is "failed".
    pub errors: Vec<WebhookError>,
}

/// Webhook error.
#[derive(Debug, Clone)]
pub struct WebhookError {
    /// Error code.
    pub code: i32,
    /// Error title.
    pub title: Option<String>,
    /// Error message.
    pub message: Option<String>,
    /// Error details.
    pub error_data: Option<Json>,
}

/// Request body for sending a text message.
#[derive(Debug, Clone)]
pub struct SendTextRequest {
    /// Must be "whatsapp".
    pub messaging_product: &'static str,
    /// Recipient type (usually "individual").
    pub recipient_type: &'static str,
    /// Recipient's WhatsApp ID (phone number).
    pub to: String,
    /// Message type.
    pub message_type: &'static str,
    /// Text content.
    pub text: OutboundTextContent,
}

/// Outbound text content.
#[derive(Debug, Clone)]
pub struct OutboundTextContent {
    /// Whether to preview URLs.
    pub preview_url: bool,
    /// Message body.
    pub body: String,
}

/// Request body for sending a media message.
#[derive(Debug, Clone)]
pub struct SendMediaRequest {
    /// Must be "whatsapp".
    pub messaging_product: &'static str,
    /// Recipient type.
    pub recipient_type: &'static str,
    /// Recipient's WhatsApp ID.
    pub to: String,
    /// Message type: "image", "document", "audio", "video".
    pub message_type: String,
    /// Media content (field name matches message_type).
    pub media: OutboundMediaContent,
}

/// Outbound media content.
#[derive(Debug, Clone)]
pub enum OutboundMediaContent {
    Image { image: MediaObject },
    Document { document: DocumentObject },
    Audio { audio: MediaObject },
    Video { video: MediaObject },
}

/// Media object for outbound messages.
#[derive(Debug, Clone)]
pub struct MediaObject {
    /// Media URL (for URL-based sending).
    pub link: Option<String>,
    /// Media ID (for ID-based sending).
    pub id: Option<String>,
    /// Caption.
    pub caption: Option<String>,
}

/// Document object for outbound messages.
#[derive(Debug, Clone)]
pub struct DocumentObject {
    /// Document URL.
    pub link: Option<String>,
    /// Document ID.
    pub id: Option<String>,
    /// Caption.
    pub caption: Option<String>,
    /// Filename.
    pub filename: Option<String>,
}

/// Response from the send message API.
#[derive(Debug, Clone)]
pub struct SendMessageResponse {
    /// Messaging product.
    pub messaging_product: String,
    /// Contacts (recipients).
    pub contacts: Vec<SendMessageContact>,
    /// Sent messages.
    pub messages: Vec<SentMessage>,
}

/// Contact in send message response.
#[derive(Debug, Clone)]
pub struct SendMessageContact {
    /// Input phone number.
    pub input: String,
    /// WhatsApp ID.
    pub wa_id: String,
}

/// Sent message info.
#[derive(Debug, Clone)]
pub struct SentMessage {
    /// Message ID.
    pub id: String,
}

/// The characters of an optional string.
pub open spec fn opt_view(s: Option<String>) -> Option<Seq<char>> {
    match s {
        Some(s) => Some(s@),
        None => None,
    }
}

impl InteractiveContent {
    /// The text of an interactive response: the title of the button reply
    /// if there is one, else that of the list reply, else nothing.
    pub open spec fn text_spec(&self) -> Seq<char> {
        match (self.button_reply, self.list_reply) {
            (Some(br), _) => br.title@,
            (None, Some(lr)) => lr.title@,
            (None, None) => Seq::empty(),
        }
    }

    /// Extract the text from this interactive response.
    pub fn extract_text(&self) -> (text: String)
        ensures
            text@ == self.text_spec(),
    {
        if let Some(br) = &self.button_reply {
            return br.title.clone();
        }
        if let Some(lr) = &self.list_reply {
            return lr.title.clone();
        }
        String::new()
    }
}

impl InboundMessage {
    /// The text that a message carries, by its type: the body of a text
    /// message, the caption of media, the title of an interactive reply,
    /// the text of a button; nothing for any other type.
    pub open spec fn text_body_spec(&self) -> Option<Seq<char>> {
        let t = self.message_type@;
        if t == "text"@ {
            match self.text {
                Some(c) => Some(c.body@),
                None => None,
            }
        } else if t == "image"@ {
            match self.image {
                Some(c) => opt_view(c.caption),
                None => None,
            }
        } else if t == "document"@ {
            match self.document {
                Some(c) => opt_view(c.caption),
                None => None,
            }
        } else if t == "audio"@ {
            match self.audio {
                Some(c) => opt_view(c.caption),
                None => None,
            }
        } else if t == "video"@ {
            match self.video {
                Some(c) => opt_view(c.caption),
                None => None,
            }
        } else if t == "interactive"@ {
            match self.interactive {
                Some(c) => Some(c.text_spec()),
                None => None,
            }
        } else if t == "button"@ {
            match self.button {
                Some(c) => Some(c.text@),
                None => None,
            }
        } else {
            None
        }
    }

    /// Whether the message's type is one of the media types.
    pub open spec fn has_media_spec(&self) -> bool {
        let t = self.message_type@;
        t == "image"@ || t == "document"@ || t == "audio"@ || t == "video"@ || t == "sticker"@
    }

    /// The id of the media that the message's type names, if the message
    /// holds it.
    pub open spec fn media_id_spec(&self) -> Option<Seq<char>> {
        let t = self.message_type@;
        if t == "image"@ {
            match self.image {
                Some(c) => Some(c.id@),
                None => None,
            }
        } else if t == "document"@ {
            match self.document {
                Some(c) => Some(c.id@),
                None => None,
            }
        } else if t == "audio"@ {
            match self.audio {
                Some(c) => Some(c.id@),
                None => None,
            }
        } else if t == "video"@ {
            match self.video {
                Some(c) => Some(c.id@),
                None => None,
            }
        } else if t == "sticker"@ {
            match self.sticker {
                Some(c) => Some(c.id@),
                None => None,
            }
        } else {
            None
        }
    }

    /// Extract the text body from this message.
    pub fn text_body(&self) -> (body: Option<String>)
        ensures
            opt_view(body) == self.text_body_spec(),
    {
        let t = self.message_type.as_str();
        if same_text(t, "text") {
            match &self.text {
                Some(c) => Some(c.body.clone()),
                None => None,
            }
        } else if same_text(t, "image") {
            match &self.image {
                Some(c) => c.caption.clone(),
                None => None,
            }
        } else if same_text(t, "document") {
            match &self.document {
                Some(c) => c.caption.clone(),
                None => None,
            }
        } else if same_text(t, "audio") {
            match &self.audio {
                Some(c) => c.caption.clone(),
                None => None,
            }
        } else if same_text(t, "video") {
            match &self.video {
                Some(c) => c.caption.clone(),
                None => None,
            }
        } else if same_text(t, "interactive") {
            match &self.interactive {
                Some(c) => Some(c.extract_text()),
                None => None,
            }
        } else if same_text(t, "button") {
            match &self.button {
                Some(c) => Some(c.text.clone()),
                None => None,
            }
        } else {
            None
        }
    }

    /// Check if this message has media content.
    pub fn has_media(&self) -> (r: bool)
        ensures
            r == self.has_media_spec(),
    {
        let t = self.message_type.as_str();
        same_text(t, "image") || same_text(t, "document") || same_text(t, "audio") || same_text(
            t,
            "video",
        ) || same_text(t, "sticker")
    }

    /// Get the media ID if this message contains media.
    pub fn media_id(&self) -> (id: Option<&str>)
        ensures
            match id {
                Some(s) => self.media_id_spec() == Some(s@),
                None => self.media_id_spec().is_none(),
            },
    {
        let t = self.message_type.as_str();
        if same_text(t, "image") {
            match &self.image {
                Some(c) => Some(c.id.as_str()),
                None => None,
            }
        } else if same_text(t, "document") {
            match &self.document {
                Some(c) => Some(c.id.as_str()),
                None => None,
            }
        } else if same_text(t, "audio") {
            match &self.audio {
                Some(c) => Some(c.id.as_str()),
                None => None,
            }
        } else if same_text(t, "video") {
            match &self.video {
                Some(c) => Some(c.id.as_str()),
                None => None,
            }
        } else if same_text(t, "sticker") {
            match &self.sticker {
                Some(c) => Some(c.id.as_str()),
                None => None,
            }
        } else {
            None
        }
    }
}

impl SendTextRequest {
    /// A text message to one recipient, without URL preview.
    pub fn new(to: String, body: String) -> (request: SendTextRequest)
        ensures
            request.messaging_product@ == "whatsapp"@,
            request.recipient_type@ == "individual"@,
            request.to == to,
            request.message_type@ == "text"@,
            request.text.preview_url == false,
            request.text.body == body,
    {
        SendTextRequest {
            messaging_product: "whatsapp",
            recipient_type: "individual",
            to,
            message_type: "text",
            text: OutboundTextContent { preview_url: false, body },
        }
    }
}

} // verus!
