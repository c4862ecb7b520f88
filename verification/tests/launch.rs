use honeclaw::launch::bearer_token;
use honeclaw::launch::bind_address;
use honeclaw::launch::build_event_engine_news_classifier;
use honeclaw::launch::build_event_engine_polisher;
use honeclaw::launch::build_event_engine_sink;
use honeclaw::launch::build_thesis_distill_llm_provider;
use honeclaw::launch::event_files;
use honeclaw::launch::is_blank;
use honeclaw::launch::next_thesis_provider;
use honeclaw::launch::scheduler_channels;
use honeclaw::launch::udp_address;
use honeclaw::launch::AuxiliaryConfig;
use honeclaw::launch::ChannelConfig;
use honeclaw::launch::Sink;
use honeclaw::launch::StartInput;
use honeclaw::launch::StartStage;
use honeclaw::launch::StartedServer;
use honeclaw::launch::Startup;
use honeclaw::launch::ThesisProvider;

fn channels() -> ChannelConfig {
    ChannelConfig {
        telegram_enabled: true,
        telegram_bot_token: " t".to_string(),
        discord_enabled: true,
        discord_bot_token: "d".to_string(),
        feishu_enabled: true,
        feishu_app_id: "id".to_string(),
        feishu_app_secret: "secret".to_string(),
        imessage_enabled: true,
    }
}

fn attached(config: &ChannelConfig) -> Vec<String> {
    match build_event_engine_sink(config) {
        Sink::Log => vec![],
        Sink::Channels(channels) => channels.iter().map(|c| c.name().to_string()).collect(),
    }
}

fn auxiliary(base_url: &str, model: &str, key: &str, max_tokens: u32) -> AuxiliaryConfig {
    AuxiliaryConfig {
        base_url: base_url.to_string(),
        model: model.to_string(),
        resolved_api_key: key.to_string(),
        timeout: 9,
        max_tokens,
    }
}

#[test]
fn ready_channels_are_attached() {
    assert_eq!(attached(&channels()), vec!["telegram", "discord", "feishu", "imessage"]);
    match build_event_engine_sink(&channels()) {
        Sink::Channels(attached) => match &attached[0] {
            honeclaw::launch::Channel::Telegram { bot_token } => assert_eq!(bot_token, " t"),
            _ => panic!("expected telegram"),
        },
        Sink::Log => panic!("expected channels"),
    }
    let mut config = channels();
    config.telegram_bot_token = " \n".to_string();
    config.feishu_app_secret = String::new();
    config.imessage_enabled = false;
    assert_eq!(attached(&config), vec!["discord"]);
    config.discord_enabled = false;
    assert!(matches!(build_event_engine_sink(&config), Sink::Log));
}

#[test]
fn tasks_are_delivered_on_the_web_last() {
    assert_eq!(scheduler_channels(false), vec!["web".to_string()]);
    assert_eq!(scheduler_channels(true), vec!["imessage".to_string(), "web".to_string()]);
}

#[test]
fn polishing_takes_levels_and_a_provider() {
    let levels = vec!["high".to_string()];
    assert_eq!(build_event_engine_polisher(levels.clone(), true), Some(levels.clone()));
    assert_eq!(build_event_engine_polisher(levels, false), None);
    assert_eq!(build_event_engine_polisher(vec![], true), None);
}

#[test]
fn news_are_classified_by_the_configured_model() {
    let model = |configured: &str, available: bool| {
        build_event_engine_news_classifier(configured, available)
    };
    assert_eq!(model(" m/x ", true).as_deref(), Some("m/x"));
    assert_eq!(model("  ", true).as_deref(), Some("amazon/nova-lite-v1"));
    assert_eq!(model("m", false), None);
}

#[test]
fn theses_are_distilled_by_the_auxiliary_model_first() {
    let provider =
        build_thesis_distill_llm_provider(&auxiliary(" http://h ", "llama ", "", 70_000));
    match &provider {
        ThesisProvider::Auxiliary(model) => {
            assert_eq!(model.base_url, "http://h");
            assert_eq!(model.model, "llama");
            assert_eq!(model.api_key, "ollama");
            assert_eq!(model.timeout, 9);
            assert_eq!(model.max_tokens, 65535);
        }
        ThesisProvider::OpenRouter => panic!("expected the auxiliary model"),
    }
    let next = next_thesis_provider(&provider).unwrap();
    assert!(matches!(next, ThesisProvider::OpenRouter));
    assert!(next_thesis_provider(&next).is_none());
    match build_thesis_distill_llm_provider(&auxiliary("b", "m", " k", 5)) {
        ThesisProvider::Auxiliary(model) => {
            assert_eq!(model.api_key, " k");
            assert_eq!(model.max_tokens, 5);
        }
        ThesisProvider::OpenRouter => panic!("expected the auxiliary model"),
    }
    for config in [auxiliary(" ", "m", "k", 5), auxiliary("b", "", "k", 5)] {
        assert!(matches!(
            build_thesis_distill_llm_provider(&config),
            ThesisProvider::OpenRouter
        ));
    }
}

#[test]
fn addresses_are_local() {
    assert_eq!(bind_address(0), "127.0.0.1:0");
    assert_eq!(bind_address(8077), "127.0.0.1:8077");
    assert_eq!(bind_address(65535), "127.0.0.1:65535");
    assert_eq!(udp_address(None), "127.0.0.1:18118");
    assert_eq!(udp_address(Some(5)), "127.0.0.1:5");
}

#[test]
fn a_blank_token_is_no_token() {
    assert_eq!(bearer_token(" s3 ").as_deref(), Some("s3"));
    assert_eq!(bearer_token("\t"), None);
    assert_eq!(bearer_token(""), None);
    assert!(is_blank("\u{2003} \u{85}"));
    assert!(!is_blank("\u{200b}"));
}

#[test]
fn event_files_lie_beside_the_sessions() {
    let files = event_files(Some("/var/hone".to_string()));
    assert_eq!(files.base, "/var/hone");
    assert_eq!(files.database, "events.sqlite3");
    assert_eq!(files.journal, "events.jsonl");
    assert_eq!(files.digests, "digest_buffer");
    assert_eq!(event_files(None).base, "./data");
    assert_eq!(event_files(Some(String::new())).base, "");
}

#[test]
fn a_server_with_two_ports_starts() {
    let mut startup = Startup::new(8077, Some(8088));
    for _ in 0..4 {
        assert!(startup.step(&StartInput::Done).is_none());
    }
    assert_eq!(startup.stage, StartStage::ReadAdminPort);
    assert!(startup.step(&StartInput::Port(8077)).is_none());
    assert_eq!(startup.stage, StartStage::BindPublic);
    assert!(startup.step(&StartInput::Done).is_none());
    let server = startup.step(&StartInput::Port(9)).unwrap().unwrap();
    assert_eq!(server, StartedServer { admin_port: 8077, public_port: Some(9) });
    assert_eq!(startup.stage, StartStage::Serving);
}

#[test]
fn a_server_with_one_port_starts() {
    let mut startup = Startup::new(0, None);
    for _ in 0..4 {
        assert!(startup.step(&StartInput::Done).is_none());
    }
    let server = startup.step(&StartInput::Port(41000)).unwrap().unwrap();
    assert_eq!(server, StartedServer { admin_port: 41000, public_port: None });
}

#[test]
fn ports_can_be_set_until_they_are_bound() {
    let mut startup = Startup::new(0, None);
    for _ in 0..3 {
        assert!(startup.step(&StartInput::Done).is_none());
    }
    startup.want_admin(8077);
    assert_eq!((startup.stage, startup.wanted_admin), (StartStage::BindAdmin, 8077));
    assert_eq!(startup.wanted_public, None);
    assert!(startup.step(&StartInput::Done).is_none());
    startup.want_public(Some(8088));
    assert_eq!((startup.wanted_admin, startup.wanted_public), (8077, Some(8088)));
    assert!(startup.step(&StartInput::Port(8077)).is_none());
    let failure =
        startup.step(&StartInput::Failed { reason: "e".to_string() }).unwrap().unwrap_err();
    assert_eq!(failure.message, "无法绑定用户端口 127.0.0.1:8088: e");
}

#[test]
fn a_server_that_fails_says_why() {
    let expected = [
        ("配置加载失败: e", false),
        ("Web Auth 存储初始化失败: e", false),
        ("HTTP client 构建失败: e", false),
        ("无法绑定端口 127.0.0.1:8077: e", true),
        ("获取端口失败: e", false),
        ("无法绑定用户端口 127.0.0.1:8088: e", true),
        ("获取用户端口失败: e", false),
    ];
    for (done, (message, stop_tasks)) in expected.iter().enumerate() {
        let mut startup = Startup::new(8077, Some(8088));
        for step in 0..done {
            let input = if step == 4 { StartInput::Port(1) } else { StartInput::Done };
            assert!(startup.step(&input).is_none());
        }
        let failure =
            startup.step(&StartInput::Failed { reason: "e".to_string() }).unwrap().unwrap_err();
        assert_eq!(failure.message, *message);
        assert_eq!(failure.stop_tasks, *stop_tasks);
        assert_eq!(startup.stage, StartStage::Failed);
    }
}
