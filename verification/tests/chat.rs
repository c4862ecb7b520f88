use honeclaw::body::Body;
use honeclaw::chat::compose_message;
use honeclaw::chat::receipt_note;
use honeclaw::chat::requested_actor;
use honeclaw::chat::Chat;
use honeclaw::chat::ChatInput;
use honeclaw::chat::ChatStage;
use honeclaw::chat::Frame;
use honeclaw::chat::SessionEvent;
use honeclaw::chat::SseSessionListener;

fn show(body: &Body) -> String {
    match body {
        Body::Null => "null".to_string(),
        Body::Flag(b) => format!("{b}"),
        Body::Count(n) => format!("{n}"),
        Body::Text(s) => format!("{s:?}"),
        Body::List(items) => {
            format!("[{}]", items.iter().map(show).collect::<Vec<String>>().join(","))
        }
        Body::Record(members) => format!(
            "{{{}}}",
            members.iter().map(|(k, v)| format!("{k}:{}", show(v))).collect::<Vec<String>>().join(","),
        ),
    }
}

fn lines(frames: &[Frame]) -> Vec<String> {
    frames.iter().map(|f| format!("{} {}", f.event, show(&f.data))).collect()
}

fn segment(text: &str) -> SessionEvent {
    SessionEvent::Segment { text: text.to_string() }
}

fn end(success: bool, cleaned: &str, skip: bool) -> SessionEvent {
    SessionEvent::Done { success, cleaned: cleaned.to_string(), skip }
}

#[test]
fn pieces_of_the_answer_are_sent_and_counted() {
    let mut listener = SseSessionListener::new("u".to_string());
    let frames = listener.on_event(&segment("a"));
    assert_eq!(lines(&frames), vec![r#"assistant_delta {content:"a"}"#]);
    let frames = listener.on_event(&SessionEvent::StreamDelta { content: "b".to_string() });
    assert_eq!(lines(&frames), vec![r#"assistant_delta {content:"b"}"#]);
    assert_eq!(listener.sent_segments, 2);
    assert!(listener.on_event(&SessionEvent::Other).is_empty());
    assert_eq!(listener.sent_segments, 2);
    assert_eq!(listener.user_id, "u");
}

#[test]
fn the_answer_is_not_repeated_at_the_end() {
    let mut listener = SseSessionListener::new("u".to_string());
    listener.on_event(&segment("a"));
    let frames = listener.on_event(&end(true, "a", false));
    assert_eq!(lines(&frames), vec!["run_finished {success:true}"]);
}

#[test]
fn the_answer_is_sent_whole_if_nothing_was_sent() {
    let mut listener = SseSessionListener::new("u".to_string());
    let frames = listener.on_event(&end(false, "whole", false));
    assert_eq!(
        lines(&frames),
        vec![r#"assistant_delta {content:"whole"}"#, "run_finished {success:false}"],
    );
    assert_eq!(lines(&listener.on_event(&end(true, "", false))), vec!["run_finished {success:true}"]);
    assert_eq!(lines(&listener.on_event(&end(true, "x", true))), vec!["run_finished {success:true}"]);
}

#[test]
fn tools_are_reported() {
    let mut listener = SseSessionListener::new("u".to_string());
    let frames = listener.on_event(&SessionEvent::ToolStatus {
        status: "start".to_string(),
        tool: "search".to_string(),
        reasoning: None,
        message: Some("m".to_string()),
    });
    assert_eq!(
        lines(&frames),
        vec![r#"tool_call {tool:"search",status:"start",text:"m",reasoning:null}"#],
    );
    assert_eq!(listener.sent_segments, 0);
}

#[test]
fn errors_are_clipped_between_characters() {
    let mut listener = SseSessionListener::new("u".to_string());
    let mut shown = |error: String| -> String {
        match &listener.on_event(&SessionEvent::RunError { error })[0].data {
            Body::Record(members) => match &members[0].1 {
                Body::Text(s) => s.clone(),
                _ => panic!("expected text"),
            },
            _ => panic!("expected a record"),
        }
    };
    assert_eq!(shown("boom".to_string()), "抱歉，处理出错: boom");
    assert_eq!(shown("x".repeat(121)), format!("抱歉，处理出错: {}", "x".repeat(120)));
    assert_eq!(shown("错".repeat(50)), format!("抱歉，处理出错: {}", "错".repeat(40)));
    assert_eq!(shown(format!("x{}", "错".repeat(50))), format!("抱歉，处理出错: x{}", "错".repeat(39)));
    assert_eq!(shown("é".repeat(60)), format!("抱歉，处理出错: {}", "é".repeat(60)));
    assert_eq!(shown(String::new()), "抱歉，处理出错: ");
}

#[test]
fn an_unknown_actor_ends_the_stream() {
    let mut chat = Chat::new();
    assert_eq!(chat.stage, ChatStage::Starting);
    let frames = chat.step(&ChatInput::ActorRefused { reason: "bad".to_string() });
    assert_eq!(lines(&frames), vec![r#"error {text:"bad"}"#, "done {}"]);
    assert_eq!(chat.stage, ChatStage::Over);
}

#[test]
fn a_command_is_answered_without_the_agent() {
    let mut chat = Chat::new();
    assert!(chat.step(&ChatInput::ActorAccepted).is_empty());
    assert_eq!(chat.stage, ChatStage::Intercepting);
    let frames = chat.step(&ChatInput::CommandAnswered { reply: "r".to_string() });
    assert_eq!(lines(&frames), vec![r#"assistant_delta {content:"r"}"#, "done {}"]);
    assert_eq!(chat.stage, ChatStage::Over);
}

#[test]
fn a_run_starts_and_ends() {
    for success in [true, false] {
        let mut chat = Chat::new();
        chat.step(&ChatInput::ActorAccepted);
        let frames = chat.step(&ChatInput::NoCommand { runner: "codex_acp".to_string() });
        assert_eq!(lines(&frames), vec![r#"run_started {runner:"codex_acp",text:""}"#]);
        assert_eq!(chat.stage, ChatStage::Running);
        let frames = chat.step(&ChatInput::RunEnded { success });
        if success {
            assert_eq!(lines(&frames), vec!["done {}"]);
        } else {
            assert_eq!(lines(&frames), vec!["run_finished {success:false}", "done {}"]);
        }
        assert_eq!(chat.stage, ChatStage::Over);
    }
}

#[test]
fn messages_get_a_line_for_each_attachment() {
    let names = |names: &[&str]| Some(names.iter().map(|s| s.to_string()).collect::<Vec<String>>());
    let compose = |message: Option<&str>, attachments: Option<Vec<String>>| {
        compose_message(&message.map(|s| s.to_string()), &attachments)
    };
    assert_eq!(compose(Some("  hi\n"), None), ("hi".to_string(), 0));
    assert_eq!(compose(None, None), (String::new(), 0));
    assert_eq!(compose(Some("hi"), names(&[])), ("hi".to_string(), 0));
    assert_eq!(compose(Some("hi"), names(&["a"])), ("hi\n[附件: a]".to_string(), 1));
    assert_eq!(
        compose(Some(" \u{3000}"), names(&["a", "b", "c"])),
        ("[附件: a]\n[附件: b]\n[附件: c]".to_string(), 3),
    );
    assert_eq!(compose(None, names(&["a", "b"])), ("[附件: a]\n[附件: b]".to_string(), 2));
}

#[test]
fn attachments_are_noted() {
    assert_eq!(receipt_note(0), "attachments=0");
    assert_eq!(receipt_note(1204), "attachments=1204");
}

#[test]
fn the_sender_is_named_without_white_space() {
    let request = requested_actor(" web\n", "\u{3000}u 1 ", Some(" s ".to_string()));
    assert_eq!((request.channel.as_str(), request.user_id.as_str()), ("web", "u 1"));
    assert_eq!(request.scope.as_deref(), Some(" s "));
    assert_eq!(requested_actor("", " ", None).user_id, "");
}
