use moltis_core::whatsapp::access::{
    check_access, check_dm_access, check_group_access, AccessDenied, ChatType, DmPolicy,
    GroupPolicy,
};
use moltis_core::reply::{media_type_for, MediaAttachment, ReplyPayload};
use moltis_core::whatsapp::config::{default_auto_read, WhatsAppConfig};
use moltis_core::whatsapp::outbound::{
    media_message, send_media, send_text, send_typing, text_message, typing_message,
};
use moltis_core::whatsapp::types::GatewayMessage;
use moltis_core::whatsapp_business::config::WhatsAppAccountConfig;
use moltis_core::whatsapp::types::ConnectionState;
use moltis_core::whatsapp_business::types::{
    ButtonContent, ButtonReply, ContactProfile, DocumentContent, InboundMessage,
    InteractiveContent, ListReply, MediaContent, SendTextRequest, TextContent, WebhookChange,
    WebhookContact, WebhookEntry, WebhookMetadata, WebhookPayload, WebhookValue,
};

fn message(kind: &str) -> InboundMessage {
    InboundMessage {
        from: "15551234567".into(),
        id: "wamid.1".into(),
        timestamp: "1700000000".into(),
        message_type: kind.into(),
        text: None,
        image: None,
        document: None,
        audio: None,
        video: None,
        sticker: None,
        interactive: None,
        button: None,
        reaction: None,
        context: None,
    }
}

fn media(id: &str, caption: Option<&str>) -> MediaContent {
    MediaContent {
        id: id.into(),
        mime_type: None,
        sha256: None,
        caption: caption.map(String::from),
    }
}

#[test]
fn text_body_goes_by_the_message_type() {
    let mut m = message("text");
    assert_eq!(m.text_body(), None);
    m.text = Some(TextContent {
        body: "Hello".into(),
        preview_url: false,
    });
    m.image = Some(media("img", Some("a picture")));
    assert_eq!(m.text_body(), Some("Hello".to_string()));

    m.message_type = "image".into();
    assert_eq!(m.text_body(), Some("a picture".to_string()));
    m.image = Some(media("img", None));
    assert_eq!(m.text_body(), None);

    for kind in ["audio", "video"] {
        let mut m = message(kind);
        m.audio = Some(media("a", Some("heard")));
        m.video = Some(media("v", Some("seen")));
        let want = if kind == "audio" { "heard" } else { "seen" };
        assert_eq!(m.text_body(), Some(want.to_string()));
    }

    let mut m = message("document");
    m.document = Some(DocumentContent {
        id: "doc".into(),
        mime_type: None,
        sha256: None,
        filename: Some("f.pdf".into()),
        caption: Some("read me".into()),
    });
    assert_eq!(m.text_body(), Some("read me".to_string()));

    let mut m = message("button");
    m.button = Some(ButtonContent {
        payload: "p".into(),
        text: "Yes".into(),
    });
    assert_eq!(m.text_body(), Some("Yes".to_string()));

    for kind in ["sticker", "location", "reaction", "Text", ""] {
        let mut m = message(kind);
        m.text = Some(TextContent {
            body: "x".into(),
            preview_url: true,
        });
        m.sticker = Some(media("s", Some("c")));
        assert_eq!(m.text_body(), None);
    }
}

#[test]
fn interactive_text_prefers_the_button_reply() {
    let both = InteractiveContent {
        interactive_type: "button_reply".into(),
        button_reply: Some(ButtonReply {
            id: "b".into(),
            title: "Button".into(),
        }),
        list_reply: Some(ListReply {
            id: "l".into(),
            title: "List".into(),
            description: None,
        }),
    };
    assert_eq!(both.extract_text(), "Button");
    let list = InteractiveContent {
        button_reply: None,
        ..both.clone()
    };
    assert_eq!(list.extract_text(), "List");
    let none = InteractiveContent {
        list_reply: None,
        ..list.clone()
    };
    assert_eq!(none.extract_text(), "");

    let mut m = message("interactive");
    assert_eq!(m.text_body(), None);
    m.interactive = Some(none);
    assert_eq!(m.text_body(), Some(String::new()));
    m.interactive = Some(list);
    assert_eq!(m.text_body(), Some("List".to_string()));
}

#[test]
fn media_of_a_message() {
    for kind in ["image", "document", "audio", "video", "sticker"] {
        let mut m = message(kind);
        assert!(m.has_media());
        assert_eq!(m.media_id(), None);
        m.image = Some(media("i1", None));
        m.audio = Some(media("a1", None));
        m.video = Some(media("v1", None));
        m.sticker = Some(media("s1", None));
        m.document = Some(DocumentContent {
            id: "d1".into(),
            mime_type: None,
            sha256: None,
            filename: None,
            caption: None,
        });
        let want = format!("{}1", &kind[..1]);
        assert_eq!(m.media_id(), Some(want.as_str()));
    }
    for kind in ["text", "interactive", "button", "Image", ""] {
        let mut m = message(kind);
        m.image = Some(media("i1", None));
        assert!(!m.has_media());
        assert_eq!(m.media_id(), None);
    }
}

#[test]
fn send_text_request_is_an_individual_text_message() {
    let r = SendTextRequest::new("15551234567".into(), "Hello, World!".into());
    assert_eq!(r.messaging_product, "whatsapp");
    assert_eq!(r.recipient_type, "individual");
    assert_eq!(r.to, "15551234567");
    assert_eq!(r.message_type, "text");
    assert_eq!(r.text.body, "Hello, World!");
    assert!(!r.text.preview_url);
}

#[test]
fn dm_access_by_policy() {
    assert_eq!(check_dm_access(DmPolicy::Open, false), Ok(()));
    assert_eq!(check_dm_access(DmPolicy::Open, true), Ok(()));
    assert_eq!(
        check_dm_access(DmPolicy::Disabled, true),
        Err(AccessDenied::DmsDisabled)
    );
    assert_eq!(check_dm_access(DmPolicy::Allowlist, true), Ok(()));
    assert_eq!(
        check_dm_access(DmPolicy::Allowlist, false),
        Err(AccessDenied::NotOnAllowlist)
    );
}

#[test]
fn group_access_by_policy() {
    assert_eq!(check_group_access(GroupPolicy::Open, false), Ok(()));
    assert_eq!(
        check_group_access(GroupPolicy::Disabled, true),
        Err(AccessDenied::GroupsDisabled)
    );
    assert_eq!(check_group_access(GroupPolicy::Allowlist, true), Ok(()));
    assert_eq!(
        check_group_access(GroupPolicy::Allowlist, false),
        Err(AccessDenied::GroupNotOnAllowlist)
    );
}

#[test]
fn access_goes_by_the_chat_type() {
    let mut cfg = WhatsAppAccountConfig::default();
    // Open by default.
    assert_eq!(check_access(&cfg, &ChatType::Dm, false, false), Ok(()));
    assert_eq!(check_access(&cfg, &ChatType::Group, false, false), Ok(()));

    cfg.dm_policy = DmPolicy::Disabled;
    assert_eq!(
        check_access(&cfg, &ChatType::Dm, true, true),
        Err(AccessDenied::DmsDisabled)
    );
    cfg.group_policy = GroupPolicy::Allowlist;
    for chat in [ChatType::Group, ChatType::Channel] {
        assert_eq!(check_access(&cfg, &chat, false, true), Ok(()));
        assert_eq!(
            check_access(&cfg, &chat, true, false),
            Err(AccessDenied::GroupNotOnAllowlist)
        );
    }
    cfg.dm_policy = DmPolicy::Allowlist;
    assert_eq!(check_access(&cfg, &ChatType::Dm, true, false), Ok(()));
    assert_eq!(
        check_access(&cfg, &ChatType::Dm, false, true),
        Err(AccessDenied::NotOnAllowlist)
    );
    cfg.group_policy = GroupPolicy::Disabled;
    assert_eq!(
        check_access(&cfg, &ChatType::Group, true, true),
        Err(AccessDenied::GroupsDisabled)
    );
}

#[test]
fn api_urls() {
    let cfg = WhatsAppAccountConfig {
        phone_number_id: "123456789".into(),
        ..Default::default()
    };
    assert_eq!(
        cfg.messages_url(),
        "https://graph.facebook.com/v21.0/123456789/messages"
    );
    assert_eq!(
        cfg.media_url("media_abc"),
        "https://graph.facebook.com/v21.0/media_abc"
    );
}

#[test]
fn api_urls_with_a_configured_base() {
    let mut cfg = WhatsAppAccountConfig::default();
    cfg.phone_number_id = "123456".into();
    assert_eq!(cfg.api_base_url(), "https://graph.facebook.com/v21.0");

    cfg.api_base_url = Some("http://localhost:9000/v1".into());
    assert_eq!(cfg.api_base_url(), "http://localhost:9000/v1");
    assert_eq!(cfg.messages_url(), "http://localhost:9000/v1/123456/messages");
    assert_eq!(cfg.media_url(""), "http://localhost:9000/v1/");
}

#[test]
fn business_config_defaults() {
    let cfg = WhatsAppAccountConfig::default();
    assert_eq!(cfg.dm_policy, DmPolicy::Open);
    assert_eq!(cfg.group_policy, GroupPolicy::Open);
    assert!(cfg.allowlist.is_empty());
    assert!(cfg.group_allowlist.is_empty());
    assert_eq!(cfg.phone_number_id, "");
    assert_eq!(cfg.verify_token, "");
    assert_eq!(cfg.business_account_id, None);
    assert_eq!(cfg.model, None);
    assert_eq!(cfg.model_provider, None);
    assert_eq!(cfg.api_base_url, None);
}

#[test]
fn media_kind_goes_by_the_mime_type() {
    for (mime, kind) in [
        ("image/png", "image"),
        ("image/", "image"),
        ("video/mp4", "video"),
        ("audio/ogg; codecs=opus", "audio"),
        ("application/pdf", "document"),
        ("Image/png", "document"),
        ("image", "document"),
        ("", "document"),
        ("text/image/", "document"),
    ] {
        assert_eq!(media_type_for(mime), kind, "{mime:?}");
    }
}

#[test]
fn sidecar_requests_for_a_reply() {
    let text = text_message("acct", "123@s.whatsapp.net", "hi there", "req-1".into());
    assert!(matches!(
        &text,
        GatewayMessage::SendText { account_id, to, text, request_id }
            if account_id == "acct" && to == "123@s.whatsapp.net" && text == "hi there"
                && request_id == "req-1"
    ));
    assert!(matches!(
        typing_message("acct", "peer"),
        GatewayMessage::SendTyping { account_id, to } if account_id == "acct" && to == "peer"
    ));

    let with_media = ReplyPayload {
        text: "look".into(),
        media: Some(MediaAttachment {
            url: "https://cdn.example/cat.png".into(),
            mime_type: "image/png".into(),
        }),
    };
    assert!(matches!(
        media_message("acct", "peer", &with_media, "req-2".into()),
        Some(GatewayMessage::SendMedia { account_id, to, media_url, media_type, caption, request_id })
            if account_id == "acct" && to == "peer" && media_url == "https://cdn.example/cat.png"
                && media_type == "image" && caption.as_deref() == Some("look")
                && request_id == "req-2"
    ));
    let no_caption = ReplyPayload {
        text: String::new(),
        media: Some(MediaAttachment {
            url: "u".into(),
            mime_type: "application/zip".into(),
        }),
    };
    assert!(matches!(
        media_message("acct", "peer", &no_caption, "req-3".into()),
        Some(GatewayMessage::SendMedia { media_type, caption: None, .. }) if media_type == "document"
    ));
    let only_text = ReplyPayload {
        text: "plain".into(),
        media: None,
    };
    assert!(matches!(
        media_message("acct", "peer", &only_text, "req-4".into()),
        Some(GatewayMessage::SendText { text, request_id, .. })
            if text == "plain" && request_id == "req-4"
    ));
    let nothing = ReplyPayload {
        text: String::new(),
        media: None,
    };
    assert!(media_message("acct", "peer", &nothing, "req-5".into()).is_none());
    assert!(send_media("acct", "peer", &nothing).is_none());

    // With random request ids.
    let a = send_text("acct", "peer", "x");
    let b = send_text("acct", "peer", "x");
    match (a, b) {
        (
            GatewayMessage::SendText { request_id: ra, text, .. },
            GatewayMessage::SendText { request_id: rb, .. },
        ) => {
            assert_eq!(ra.len(), 36);
            assert_ne!(ra, rb);
            assert_eq!(text, "x");
        }
        _ => panic!("not a text request"),
    }
    assert!(matches!(
        send_media("acct", "peer", &with_media),
        Some(GatewayMessage::SendMedia { request_id, .. }) if request_id.len() == 36
    ));
    assert!(matches!(
        send_typing("a", "b"),
        GatewayMessage::SendTyping { .. }
    ));
}

#[test]
fn denial_reasons_in_words() {
    assert_eq!(AccessDenied::DmsDisabled.message(), "DMs are disabled");
    assert_eq!(AccessDenied::NotOnAllowlist.message(), "user not on allowlist");
    assert_eq!(AccessDenied::GroupsDisabled.message(), "groups are disabled");
    assert_eq!(
        AccessDenied::GroupNotOnAllowlist.message(),
        "group not on allowlist"
    );
}

#[test]
fn whatsapp_web_defaults() {
    let c = WhatsAppConfig::default();
    assert_eq!(c.auth_dir, None);
    assert!(c.allowlist.is_empty());
    assert_eq!(c.model, None);
    assert!(c.auto_read);
    assert!(default_auto_read());
    assert!(matches!(
        ConnectionState::default(),
        ConnectionState::Disconnected
    ));
}

/// A payload with one entry that holds one change of `messages`.
fn payload_with(
    entry_id: &str,
    product: Option<&str>,
    metadata: Option<WebhookMetadata>,
    contacts: Vec<WebhookContact>,
    messages: Vec<InboundMessage>,
) -> WebhookPayload {
    WebhookPayload {
        object: "whatsapp_business_account".into(),
        entry: vec![WebhookEntry {
            id: entry_id.into(),
            changes: vec![WebhookChange {
                field: "messages".into(),
                value: WebhookValue {
                    messaging_product: product.map(String::from),
                    metadata,
                    contacts,
                    messages,
                    statuses: vec![],
                    errors: vec![],
                },
            }],
        }],
    }
}

#[test]
fn parse_text_message_webhook() {
    // The payload that the webhook's JSON denotes.
    let mut text = message("text");
    text.id = "wamid.xxx".into();
    text.timestamp = "1234567890".into();
    text.text = Some(TextContent {
        body: "Hello, world!".into(),
        preview_url: false,
    });
    let payload = payload_with(
        "123456789",
        Some("whatsapp"),
        Some(WebhookMetadata {
            display_phone_number: "+1 555 123 4567".into(),
            phone_number_id: "123456789".into(),
        }),
        vec![WebhookContact {
            wa_id: "15551234567".into(),
            profile: Some(ContactProfile {
                name: "John Doe".into(),
            }),
        }],
        vec![text],
    );

    assert_eq!(payload.object, "whatsapp_business_account");
    assert_eq!(payload.entry.len(), 1);

    let change = &payload.entry[0].changes[0];
    assert_eq!(change.field, "messages");

    let messages = &change.value.messages;
    assert_eq!(messages.len(), 1);
    assert_eq!(messages[0].from, "15551234567");
    assert_eq!(messages[0].text_body(), Some("Hello, world!".to_string()));
}

#[test]
fn parse_image_message_webhook() {
    let mut image = message("image");
    image.id = "wamid.xxx".into();
    image.timestamp = "1234567890".into();
    image.image = Some(MediaContent {
        id: "media123".into(),
        mime_type: Some("image/jpeg".into()),
        sha256: Some("abc123".into()),
        caption: Some("Check this out!".into()),
    });
    let payload = payload_with("123", None, None, vec![], vec![image]);

    let msg = &payload.entry[0].changes[0].value.messages[0];
    assert!(msg.has_media());
    assert_eq!(msg.media_id(), Some("media123"));
    assert_eq!(msg.text_body(), Some("Check this out!".to_string()));
}

#[test]
fn serialize_send_text_request() {
    let req = SendTextRequest::new("15551234567".into(), "Hello!".into());
    // The request written as JSON, member by member.
    let mut text = serde_json::Map::new();
    text.insert("preview_url".into(), req.text.preview_url.into());
    text.insert("body".into(), req.text.body.clone().into());
    let mut map = serde_json::Map::new();
    map.insert("messaging_product".into(), req.messaging_product.into());
    map.insert("recipient_type".into(), req.recipient_type.into());
    map.insert("to".into(), req.to.clone().into());
    map.insert("type".into(), req.message_type.into());
    map.insert("text".into(), serde_json::Value::Object(text));
    let json = serde_json::to_string(&map).unwrap();
    assert!(json.contains("\"messaging_product\":\"whatsapp\""));
    assert!(json.contains("\"to\":\"15551234567\""));
    assert!(json.contains("\"body\":\"Hello!\""));
}
