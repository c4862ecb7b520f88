//! How the server is put together from its configuration, and how it starts.
//!
//! A part whose configuration is not complete is left out or replaced; only the steps
//! that [`Startup`] goes through can keep the server from starting.

use vstd::prelude::*;

use crate::event;
use crate::text;

verus! {

/// The port that log entries come in on if none is configured.
pub const DEFAULT_UDP_PORT: u16 = 18118;

/// The most tokens that a language model can be asked for.
pub const MAX_TOKENS: u32 = 65535;

/// Whether the text is nothing but white space.
pub open spec fn blank(s: Seq<char>) -> bool {
    text::trimmed(s).len() == 0
}

/// Whether the text is nothing but white space.
pub fn is_blank(s: &str) -> (yes: bool)
    ensures
        yes == blank(s@),
{
    text::trim(s).is_empty()
}

// ---------------------------------------------------------------------------
// Where events are delivered
// ---------------------------------------------------------------------------
/// What the configuration says of the channels that events can be delivered on.
#[derive(Debug)]
pub struct ChannelConfig {
    pub telegram_enabled: bool,
    pub telegram_bot_token: String,
    pub discord_enabled: bool,
    pub discord_bot_token: String,
    pub feishu_enabled: bool,
    pub feishu_app_id: String,
    pub feishu_app_secret: String,
    pub imessage_enabled: bool,
}

/// A channel, with what it takes to deliver on it.
#[derive(Debug)]
pub enum Channel {
    Telegram { bot_token: String },
    Discord { bot_token: String },
    Feishu { app_id: String, app_secret: String },
    IMessage,
}

/// Where events go: to the log alone, or to channels, where what is meant for any other
/// channel goes to the log.
#[derive(Debug)]
pub enum Sink {
    Log,
    Channels(Vec<Channel>),
}

/// What a [`Channel`] says.
#[verifier::ext_equal]
pub enum ChannelView {
    Telegram { bot_token: Seq<char> },
    Discord { bot_token: Seq<char> },
    Feishu { app_id: Seq<char>, app_secret: Seq<char> },
    IMessage,
}

impl Channel {
    pub open spec fn view(&self) -> ChannelView {
        match self {
            Channel::Telegram { bot_token } => ChannelView::Telegram { bot_token: bot_token@ },
            Channel::Discord { bot_token } => ChannelView::Discord { bot_token: bot_token@ },
            Channel::Feishu { app_id, app_secret } => ChannelView::Feishu {
                app_id: app_id@,
                app_secret: app_secret@,
            },
            Channel::IMessage => ChannelView::IMessage,
        }
    }

    /// The name of the channel.
    pub open spec fn spec_name(self) -> Seq<char> {
        match self {
            Channel::Telegram { .. } => "telegram"@,
            Channel::Discord { .. } => "discord"@,
            Channel::Feishu { .. } => "feishu"@,
            Channel::IMessage => "imessage"@,
        }
    }

    /// The name of the channel.
    pub fn name(&self) -> (name: &'static str)
        ensures
            name@ == self.spec_name(),
    {
        match self {
            Channel::Telegram { .. } => "telegram",
            Channel::Discord { .. } => "discord",
            Channel::Feishu { .. } => "feishu",
            Channel::IMessage => "imessage",
        }
    }
}

/// What each of the channels says.
pub open spec fn channels_of(channels: Seq<Channel>) -> Seq<ChannelView> {
    channels.map_values(|c: Channel| c@)
}

/// `item` if `present`, else nothing.
pub open spec fn only_if<T>(present: bool, item: T) -> Seq<T> {
    if present {
        seq![item]
    } else {
        Seq::empty()
    }
}

impl ChannelConfig {
    /// Whether Telegram is enabled and has what it takes.
    pub open spec fn telegram_ready(self) -> bool {
        self.telegram_enabled && !blank(self.telegram_bot_token@)
    }

    /// Whether Discord is enabled and has what it takes.
    pub open spec fn discord_ready(self) -> bool {
        self.discord_enabled && !blank(self.discord_bot_token@)
    }

    /// Whether Feishu is enabled and has what it takes.
    pub open spec fn feishu_ready(self) -> bool {
        self.feishu_enabled && !blank(self.feishu_app_id@) && !blank(self.feishu_app_secret@)
    }

    /// The channels that are enabled and have what they take.
    pub open spec fn ready_channels(self) -> Seq<ChannelView> {
        only_if(
            self.telegram_ready(),
            ChannelView::Telegram { bot_token: self.telegram_bot_token@ },
        ) + only_if(
            self.discord_ready(),
            ChannelView::Discord { bot_token: self.discord_bot_token@ },
        ) + only_if(
            self.feishu_ready(),
            ChannelView::Feishu {
                app_id: self.feishu_app_id@,
                app_secret: self.feishu_app_secret@,
            },
        ) + only_if(self.imessage_enabled, ChannelView::IMessage)
    }
}

fn attach(channels: &mut Vec<Channel>, channel: Channel)
    ensures
        channels_of(final(channels)@) == channels_of(old(channels)@) + seq![channel@],
{
    channels.push(channel);
    assert(channels_of(channels@) =~= channels_of(old(channels)@) + seq![channel@]);
}

/// Where events go: to each channel that is enabled and has what it takes, or to the log
/// alone if there is none.
pub fn build_event_engine_sink(config: &ChannelConfig) -> (sink: Sink)
    ensures
        sink is Log <==> config.ready_channels().len() == 0,
        sink matches Sink::Channels(channels) ==> channels_of(channels@)
            == config.ready_channels(),
{
    let mut channels: Vec<Channel> = Vec::new();
    assert(channels_of(channels@) =~= Seq::empty());
    if config.telegram_enabled && !is_blank(config.telegram_bot_token.as_str()) {
        attach(
            &mut channels,
            Channel::Telegram { bot_token: config.telegram_bot_token.clone() },
        );
    }
    if config.discord_enabled && !is_blank(config.discord_bot_token.as_str()) {
        attach(&mut channels, Channel::Discord { bot_token: config.discord_bot_token.clone() });
    }
    if config.feishu_enabled && !is_blank(config.feishu_app_id.as_str()) && !is_blank(
        config.feishu_app_secret.as_str(),
    ) {
        attach(
            &mut channels,
            Channel::Feishu {
                app_id: config.feishu_app_id.clone(),
                app_secret: config.feishu_app_secret.clone(),
            },
        );
    }
    if config.imessage_enabled {
        attach(&mut channels, Channel::IMessage);
    }
    assert(channels_of(channels@) =~= config.ready_channels());
    if channels.len() == 0 {
        Sink::Log
    } else {
        Sink::Channels(channels)
    }
}

/// The channels that scheduled tasks are delivered on.
pub fn scheduler_channels(imessage_enabled: bool) -> (channels: Vec<String>)
    ensures
        event::texts_of(channels@) == only_if(imessage_enabled, "imessage"@) + seq!["web"@],
{
    let mut channels: Vec<String> = Vec::new();
    if imessage_enabled {
        channels.push("imessage".to_owned());
    }
    channels.push("web".to_owned());
    assert(event::texts_of(channels@) =~= only_if(imessage_enabled, "imessage"@) + seq!["web"@]);
    channels
}

// ---------------------------------------------------------------------------
// Language models
// ---------------------------------------------------------------------------
/// Whether messages are polished by a language model: if there are levels to polish and
/// the provider of models can be had.
pub fn build_event_engine_polisher(levels: Vec<String>, provider_available: bool) -> (polished:
    Option<Vec<String>>)
    ensures
        polished == if levels@.len() > 0 && provider_available {
            Some(levels)
        } else {
            None
        },
{
    if levels.len() == 0 || !provider_available {
        None
    } else {
        Some(levels)
    }
}

/// The model that classifies news: the one that is configured, or the default.
pub open spec fn classifier_model(configured: Seq<char>) -> Seq<char> {
    if blank(configured) {
        "amazon/nova-lite-v1"@
    } else {
        text::trimmed(configured)
    }
}

/// The model that classifies news; none if the provider of models cannot be had.
pub fn build_event_engine_news_classifier(configured: &str, provider_available: bool) -> (model:
    Option<String>)
    ensures
        event::option_text(model) == if provider_available {
            Some(classifier_model(configured@))
        } else {
            None
        },
{
    if !provider_available {
        return None;
    }
    let model = text::trim(configured);
    if model.is_empty() {
        Some("amazon/nova-lite-v1".to_owned())
    } else {
        Some(model.to_owned())
    }
}

/// What the configuration says of the auxiliary language model. The key is the one that
/// the configuration leads to, and empty if it leads to none.
#[derive(Debug)]
pub struct AuxiliaryConfig {
    pub base_url: String,
    pub model: String,
    pub resolved_api_key: String,
    pub timeout: u64,
    pub max_tokens: u32,
}

/// How to reach a language model that speaks the protocol of OpenAI.
#[derive(Debug)]
pub struct AuxiliaryModel {
    pub api_key: String,
    pub base_url: String,
    pub model: String,
    pub timeout: u64,
    pub max_tokens: u16,
}

/// A way to distill theses.
#[derive(Debug)]
pub enum ThesisProvider {
    /// By the auxiliary language model.
    Auxiliary(AuxiliaryModel),
    /// By a language model of OpenRouter.
    OpenRouter,
}

impl AuxiliaryConfig {
    /// Whether the configuration names an auxiliary language model.
    pub open spec fn complete(self) -> bool {
        !blank(self.base_url@) && !blank(self.model@)
    }

    /// Whether the model is the one that is configured. A model that runs on this machine
    /// often has no key; a word stands in for it.
    pub open spec fn describes(self, model: AuxiliaryModel) -> bool {
        &&& model.base_url@ == text::trimmed(self.base_url@)
        &&& model.model@ == text::trimmed(self.model@)
        &&& model.api_key@ == if self.resolved_api_key@.len() == 0 {
            "ollama"@
        } else {
            self.resolved_api_key@
        }
        &&& model.timeout == self.timeout
        &&& model.max_tokens == if self.max_tokens <= MAX_TOKENS {
            self.max_tokens
        } else {
            MAX_TOKENS
        }
    }
}

/// The first way to try: the auxiliary language model if the configuration names one, else
/// OpenRouter.
pub fn build_thesis_distill_llm_provider(config: &AuxiliaryConfig) -> (provider: ThesisProvider)
    ensures
        match provider {
            ThesisProvider::Auxiliary(model) => config.complete() && config.describes(model),
            ThesisProvider::OpenRouter => !config.complete(),
        },
{
    let base = text::trim(config.base_url.as_str());
    let model = text::trim(config.model.as_str());
    if base.is_empty() || model.is_empty() {
        return ThesisProvider::OpenRouter;
    }
    let api_key = if config.resolved_api_key.as_str().is_empty() {
        "ollama".to_owned()
    } else {
        config.resolved_api_key.clone()
    };
    let max_tokens: u16 = if config.max_tokens <= MAX_TOKENS {
        config.max_tokens as u16
    } else {
        MAX_TOKENS as u16
    };
    ThesisProvider::Auxiliary(
        AuxiliaryModel {
            api_key,
            base_url: base.to_owned(),
            model: model.to_owned(),
            timeout: config.timeout,
            max_tokens,
        },
    )
}

/// The way to try after one that failed: OpenRouter after the auxiliary language model,
/// none after OpenRouter.
pub fn next_thesis_provider(failed: &ThesisProvider) -> (next: Option<ThesisProvider>)
    ensures
        match next {
            Some(provider) => failed is Auxiliary && provider is OpenRouter,
            None => failed is OpenRouter,
        },
{
    match failed {
        ThesisProvider::Auxiliary(_) => Some(ThesisProvider::OpenRouter),
        ThesisProvider::OpenRouter => None,
    }
}

// ---------------------------------------------------------------------------
// Addresses, files and access
// ---------------------------------------------------------------------------
/// The address of the port on this machine.
pub open spec fn local_address(port: u16) -> Seq<char> {
    "127.0.0.1:"@ + text::numeral(port as nat)
}

/// The address of the port on this machine.
pub fn bind_address(port: u16) -> (address: String)
    ensures
        address@ == local_address(port),
{
    text::concat2("127.0.0.1:", text::decimal(port as u64).as_str())
}

/// The address that log entries come in on.
pub fn udp_address(configured: Option<u16>) -> (address: String)
    ensures
        address@ == local_address(
            match configured {
                Some(port) => port,
                None => DEFAULT_UDP_PORT,
            },
        ),
{
    match configured {
        Some(port) => bind_address(port),
        None => bind_address(DEFAULT_UDP_PORT),
    }
}

/// The token that a client has to show; none if none is configured.
pub fn bearer_token(configured: &str) -> (token: Option<String>)
    ensures
        event::option_text(token) == if blank(configured@) {
            None
        } else {
            Some(text::trimmed(configured@))
        },
{
    let token = text::trim(configured);
    if token.is_empty() {
        None
    } else {
        Some(token.to_owned())
    }
}

/// The files of the event engine: the directory, and the names in it of the database, the
/// journal and the directory of digests.
#[derive(Debug)]
pub struct EventFiles {
    pub base: String,
    pub database: String,
    pub journal: String,
    pub digests: String,
}

/// The files of the event engine, which lie where the sessions do. `session_dir` is the
/// directory that holds the database of sessions, if that lies in one.
pub fn event_files(session_dir: Option<String>) -> (files: EventFiles)
    ensures
        files.base@ == match session_dir {
            Some(dir) => dir@,
            None => "./data"@,
        },
        files.database@ == "events.sqlite3"@,
        files.journal@ == "events.jsonl"@,
        files.digests@ == "digest_buffer"@,
{
    let base = match session_dir {
        Some(dir) => dir,
        None => "./data".to_owned(),
    };
    EventFiles {
        base,
        database: "events.sqlite3".to_owned(),
        journal: "events.jsonl".to_owned(),
        digests: "digest_buffer".to_owned(),
    }
}

// ---------------------------------------------------------------------------
// Starting
// ---------------------------------------------------------------------------
/// What the server does next to start.
#[derive(Clone, Copy, Debug, PartialEq, Eq, Structural)]
pub enum StartStage {
    /// The configuration is to be read.
    LoadConfig,
    /// The storage of logins is to be opened.
    OpenAuth,
    /// The client for outgoing requests is to be built.
    BuildClient,
    /// The tasks are to be started, and then the port for administrators is to be bound.
    BindAdmin,
    /// The port for administrators that was bound is to be read.
    ReadAdminPort,
    /// The port for users is to be bound.
    BindPublic,
    /// The port for users that was bound is to be read.
    ReadPublicPort,
    /// The server runs.
    Serving,
    /// The server does not start.
    Failed,
}

/// What came of a step.
#[derive(Debug)]
pub enum StartInput {
    /// The step was done.
    Done,
    /// The port that was bound.
    Port(u16),
    /// The step failed, for the reason given.
    Failed { reason: String },
}

/// A server that has started, and the ports that it can be reached on.
#[derive(Clone, Copy, Debug, PartialEq, Eq, Structural)]
pub struct StartedServer {
    pub admin_port: u16,
    pub public_port: Option<u16>,
}

/// A server that does not start: what to tell, and whether the tasks that were started are
/// to be stopped.
#[derive(Debug)]
pub struct StartFailure {
    pub message: String,
    pub stop_tasks: bool,
}

/// A server on its way: what it does next, the ports that are wanted, and the port for
/// administrators once that is known.
#[derive(Debug)]
pub struct Startup {
    pub stage: StartStage,
    pub wanted_admin: u16,
    pub wanted_public: Option<u16>,
    pub admin_port: u16,
}

/// What to tell if the step fails.
pub open spec fn failure_text(
    stage: StartStage,
    wanted_admin: u16,
    wanted_public: Option<u16>,
    reason: Seq<char>,
) -> Seq<char> {
    match stage {
        StartStage::LoadConfig => "配置加载失败: "@ + reason,
        StartStage::OpenAuth => "Web Auth 存储初始化失败: "@ + reason,
        StartStage::BuildClient => "HTTP client 构建失败: "@ + reason,
        StartStage::BindAdmin => "无法绑定端口 "@ + local_address(wanted_admin) + ": "@ + reason,
        StartStage::ReadAdminPort => "获取端口失败: "@ + reason,
        StartStage::BindPublic => "无法绑定用户端口 "@ + local_address(wanted_public->0) + ": "@
            + reason,
        _ => "获取用户端口失败: "@ + reason,
    }
}

/// What the server does next if the step succeeds.
pub open spec fn stage_after(stage: StartStage, wanted_public: Option<u16>) -> StartStage {
    match stage {
        StartStage::LoadConfig => StartStage::OpenAuth,
        StartStage::OpenAuth => StartStage::BuildClient,
        StartStage::BuildClient => StartStage::BindAdmin,
        StartStage::BindAdmin => StartStage::ReadAdminPort,
        StartStage::ReadAdminPort => if wanted_public is Some {
            StartStage::BindPublic
        } else {
            StartStage::Serving
        },
        StartStage::BindPublic => StartStage::ReadPublicPort,
        _ => StartStage::Serving,
    }
}

impl Startup {
    /// Whether the port for users is bound only if one is wanted.
    pub open spec fn well_formed(self) -> bool {
        self.stage == StartStage::BindPublic || self.stage == StartStage::ReadPublicPort
            ==> self.wanted_public is Some
    }

    /// Whether the step can end so.
    pub open spec fn possible(self, input: StartInput) -> bool {
        match self.stage {
            StartStage::Serving | StartStage::Failed => false,
            StartStage::ReadAdminPort | StartStage::ReadPublicPort => !(input is Done),
            _ => !(input is Port),
        }
    }

    /// The server before its first step.
    pub fn new(wanted_admin: u16, wanted_public: Option<u16>) -> (startup: Startup)
        ensures
            startup.well_formed(),
            startup == (Startup {
                stage: StartStage::LoadConfig,
                wanted_admin,
                wanted_public,
                admin_port: 0,
            }),
    {
        Startup { stage: StartStage::LoadConfig, wanted_admin, wanted_public, admin_port: 0 }
    }

    /// Sets the port for administrators that is to be bound next.
    pub fn want_admin(&mut self, port: u16)
        requires
            old(self).well_formed(),
            old(self).stage == StartStage::BindAdmin,
        ensures
            final(self).well_formed(),
            *final(self) == (Startup {
                stage: old(self).stage,
                wanted_admin: port,
                wanted_public: old(self).wanted_public,
                admin_port: old(self).admin_port,
            }),
    {
        self.wanted_admin = port;
    }

    /// Sets the port for users that is to be bound once the port for administrators is known,
    /// or that none is.
    pub fn want_public(&mut self, port: Option<u16>)
        requires
            old(self).well_formed(),
            old(self).stage == StartStage::ReadAdminPort,
        ensures
            final(self).well_formed(),
            *final(self) == (Startup {
                stage: old(self).stage,
                wanted_admin: old(self).wanted_admin,
                wanted_public: port,
                admin_port: old(self).admin_port,
            }),
    {
        self.wanted_public = port;
    }

    fn failure(&self, reason: &str) -> (failure: StartFailure)
        requires
            self.well_formed(),
        ensures
            failure.message@ == failure_text(
                self.stage,
                self.wanted_admin,
                self.wanted_public,
                reason@,
            ),
            failure.stop_tasks == (self.stage == StartStage::BindAdmin || self.stage
                == StartStage::BindPublic),
    {
        let (message, stop_tasks) = match self.stage {
            StartStage::LoadConfig => (text::concat2("配置加载失败: ", reason), false),
            StartStage::OpenAuth => (
                text::concat2("Web Auth 存储初始化失败: ", reason),
                false,
            ),
            StartStage::BuildClient => (text::concat2("HTTP client 构建失败: ", reason), false),
            StartStage::BindAdmin => {
                let address = bind_address(self.wanted_admin);
                (text::concat4("无法绑定端口 ", address.as_str(), ": ", reason), true)
            },
            StartStage::ReadAdminPort => (text::concat2("获取端口失败: ", reason), false),
            StartStage::BindPublic => {
                let port: u16 = match self.wanted_public {
                    Some(port) => port,
                    None => 0,
                };
                let address = bind_address(port);
                (text::concat4("无法绑定用户端口 ", address.as_str(), ": ", reason), true)
            },
            _ => (text::concat2("获取用户端口失败: ", reason), false),
        };
        StartFailure { message, stop_tasks }
    }

    /// Takes what came of the step. Gives the server once it runs, the failure if it does
    /// not start, and nothing as long as there are steps to do.
    pub fn step(&mut self, input: &StartInput) -> (outcome: Option<
        Result<StartedServer, StartFailure>,
    >)
        requires
            old(self).well_formed(),
            old(self).possible(*input),
        ensures
            final(self).well_formed(),
            final(self).wanted_admin == old(self).wanted_admin,
            final(self).wanted_public == old(self).wanted_public,
            final(self).stage == match input {
                StartInput::Failed { .. } => StartStage::Failed,
                _ => stage_after(old(self).stage, old(self).wanted_public),
            },
            final(self).admin_port == match input {
                StartInput::Port(port) => if old(self).stage == StartStage::ReadAdminPort {
                    *port
                } else {
                    old(self).admin_port
                },
                _ => old(self).admin_port,
            },
            match outcome {
                None => final(self).stage != StartStage::Serving && final(self).stage
                    != StartStage::Failed,
                Some(Ok(server)) => {
                    &&& final(self).stage == StartStage::Serving
                    &&& server.admin_port == final(self).admin_port
                    &&& server.public_port == match old(self).wanted_public {
                        Some(_) => Some(input->Port_0),
                        None => None,
                    }
                },
                Some(Err(failure)) => {
                    &&& input is Failed
                    &&& failure.message@ == failure_text(
                        old(self).stage,
                        old(self).wanted_admin,
                        old(self).wanted_public,
                        input->reason@,
                    )
                    &&& failure.stop_tasks == (old(self).stage == StartStage::BindAdmin || old(
                        self,
                    ).stage == StartStage::BindPublic)
                },
            },
    {
        let port: u16 = match input {
            StartInput::Failed { reason } => {
                let failure = self.failure(reason.as_str());
                self.stage = StartStage::Failed;
                return Some(Err(failure));
            },
            StartInput::Port(port) => *port,
            StartInput::Done => 0,
        };
        match self.stage {
            StartStage::LoadConfig => {
                self.stage = StartStage::OpenAuth;
            },
            StartStage::OpenAuth => {
                self.stage = StartStage::BuildClient;
            },
            StartStage::BuildClient => {
                self.stage = StartStage::BindAdmin;
            },
            StartStage::BindAdmin => {
                self.stage = StartStage::ReadAdminPort;
            },
            StartStage::ReadAdminPort => {
                self.admin_port = port;
                if self.wanted_public.is_some() {
                    self.stage = StartStage::BindPublic;
                } else {
                    self.stage = StartStage::Serving;
                    return Some(Ok(StartedServer { admin_port: port, public_port: None }));
                }
            },
            StartStage::BindPublic => {
                self.stage = StartStage::ReadPublicPort;
            },
            _ => {
                self.stage = StartStage::Serving;
                return Some(
                    Ok(StartedServer { admin_port: self.admin_port, public_port: Some(port) }),
                );
            },
        }
        None
    }
}

// ---------------------------------------------------------------------------
// What holds of every configuration
// ---------------------------------------------------------------------------
/// A text is blank if and only if each of its characters is white space.
pub proof fn law_blank(s: Seq<char>)
    ensures
        blank(s) <==> forall|i: int| 0 <= i < s.len() ==> text::white_space(#[trigger] s[i]),
{
    text::lemma_trimmed_start(s);
    let rest = text::trimmed_start(s);
    if rest.len() > 0 {
        text::lemma_trimmed_end_keeps_start(rest);
        assert(!text::white_space(s[s.len() - rest.len()]));
    }
}

/// A channel is among those that events go to if and only if it is enabled and has what it
/// takes, and each at most once.
pub proof fn law_channels(config: ChannelConfig)
    ensures
        config.ready_channels().len() <= 4,
        config.ready_channels().no_duplicates(),
        (exists|i: int|
            0 <= i < config.ready_channels().len() && #[trigger] config.ready_channels()[i] is Telegram)
            <==> config.telegram_ready(),
        (exists|i: int|
            0 <= i < config.ready_channels().len() && #[trigger] config.ready_channels()[i] is Discord)
            <==> config.discord_ready(),
        (exists|i: int|
            0 <= i < config.ready_channels().len() && #[trigger] config.ready_channels()[i] is Feishu)
            <==> config.feishu_ready(),
        (exists|i: int|
            0 <= i < config.ready_channels().len() && #[trigger] config.ready_channels()[i] is IMessage)
            <==> config.imessage_enabled,
{
    let all = config.ready_channels();
    let t: int = if config.telegram_ready() {
        1
    } else {
        0
    };
    let d: int = t + if config.discord_ready() {
        1int
    } else {
        0
    };
    let f: int = d + if config.feishu_ready() {
        1int
    } else {
        0
    };
    if config.telegram_ready() {
        assert(all[0] is Telegram);
    }
    if config.discord_ready() {
        assert(all[t] is Discord);
    }
    if config.feishu_ready() {
        assert(all[d] is Feishu);
    }
    if config.imessage_enabled {
        assert(all[f] is IMessage);
    }
}

/// How many steps are left until the server runs, if every step succeeds.
pub open spec fn steps_to_serving(stage: StartStage, wanted_public: Option<u16>) -> nat {
    match stage {
        StartStage::LoadConfig => if wanted_public is Some {
            7
        } else {
            5
        },
        StartStage::OpenAuth => if wanted_public is Some {
            6
        } else {
            4
        },
        StartStage::BuildClient => if wanted_public is Some {
            5
        } else {
            3
        },
        StartStage::BindAdmin => if wanted_public is Some {
            4
        } else {
            2
        },
        StartStage::ReadAdminPort => if wanted_public is Some {
            3
        } else {
            1
        },
        StartStage::BindPublic => 2,
        StartStage::ReadPublicPort => 1,
        _ => 0,
    }
}

/// Every step that succeeds brings the server one step closer to running.
pub proof fn law_every_step_gets_closer(startup: Startup)
    requires
        startup.well_formed(),
        startup.stage != StartStage::Serving,
        startup.stage != StartStage::Failed,
    ensures
        steps_to_serving(
            stage_after(startup.stage, startup.wanted_public),
            startup.wanted_public,
        ) == steps_to_serving(startup.stage, startup.wanted_public) - 1,
        stage_after(startup.stage, startup.wanted_public) == StartStage::Serving <==>
            steps_to_serving(startup.stage, startup.wanted_public) == 1,
{
}

/// What the server does after so many steps, if every one of them succeeds.
pub open spec fn stage_after_steps(steps: nat, wanted_public: Option<u16>) -> StartStage
    decreases steps,
{
    if steps == 0 {
        StartStage::LoadConfig
    } else {
        stage_after(stage_after_steps((steps - 1) as nat, wanted_public), wanted_public)
    }
}

/// The server runs only once all of its steps have succeeded: five, and two more if there
/// is a port for users.
pub proof fn law_server_runs_after_all_steps(steps: nat, wanted_public: Option<u16>)
    requires
        steps <= steps_to_serving(StartStage::LoadConfig, wanted_public),
    ensures
        stage_after_steps(steps, wanted_public) == StartStage::Serving <==> steps
            == steps_to_serving(StartStage::LoadConfig, wanted_public),
{
    reveal_with_fuel(stage_after_steps, 8);
}

/// Every channel that events go to carries its own credentials as they are configured: the
/// token of Telegram is that of Telegram, the token of Discord that of Discord, and Feishu has
/// the app id as its app id and the app secret as its app secret.
pub proof fn law_channels_carry_their_own_credentials(config: ChannelConfig, i: int)
    requires
        0 <= i < config.ready_channels().len(),
    ensures
        match config.ready_channels()[i] {
            ChannelView::Telegram { bot_token } => bot_token == config.telegram_bot_token@,
            ChannelView::Discord { bot_token } => bot_token == config.discord_bot_token@,
            ChannelView::Feishu { app_id, app_secret } => app_id == config.feishu_app_id@
                && app_secret == config.feishu_app_secret@,
            ChannelView::IMessage => true,
        },
{
}

/// A channel is ready if and only if it is enabled and each of its own credentials has a
/// character that is not white space. The others have no say in it.
pub proof fn law_channels_are_ready_on_their_own(config: ChannelConfig)
    ensures
        config.telegram_ready() <==> config.telegram_enabled && exists|i: int|
            0 <= i < config.telegram_bot_token@.len() && !text::white_space(
                #[trigger] config.telegram_bot_token@[i],
            ),
        config.discord_ready() <==> config.discord_enabled && exists|i: int|
            0 <= i < config.discord_bot_token@.len() && !text::white_space(
                #[trigger] config.discord_bot_token@[i],
            ),
        config.feishu_ready() <==> config.feishu_enabled && (exists|i: int|
            0 <= i < config.feishu_app_id@.len() && !text::white_space(
                #[trigger] config.feishu_app_id@[i],
            )) && (exists|i: int|
            0 <= i < config.feishu_app_secret@.len() && !text::white_space(
                #[trigger] config.feishu_app_secret@[i],
            )),
{
    law_blank(config.telegram_bot_token@);
    law_blank(config.discord_bot_token@);
    law_blank(config.feishu_app_id@);
    law_blank(config.feishu_app_secret@);
}

/// Channels come in the order Telegram, Discord, Feishu, iMessage.
pub proof fn law_channels_come_in_order(config: ChannelConfig, i: int, j: int)
    requires
        0 <= i < j < config.ready_channels().len(),
    ensures
        !(config.ready_channels()[j] is Telegram),
        config.ready_channels()[j] is Discord ==> config.ready_channels()[i] is Telegram,
        config.ready_channels()[j] is Feishu ==> config.ready_channels()[i] is Telegram
            || config.ready_channels()[i] is Discord,
        !(config.ready_channels()[i] is IMessage),
{
}

/// Channels have their names and say what they hold.
pub proof fn law_channels_say_what_they_hold(channel: Channel, channels: Seq<Channel>)
    ensures
        match channel {
            Channel::Telegram { bot_token } => channel.spec_name() == "telegram"@ && channel@ == (
            ChannelView::Telegram { bot_token: bot_token@ }),
            Channel::Discord { bot_token } => channel.spec_name() == "discord"@ && channel@ == (
            ChannelView::Discord { bot_token: bot_token@ }),
            Channel::Feishu { app_id, app_secret } => channel.spec_name() == "feishu"@
                && channel@ == (ChannelView::Feishu {
                app_id: app_id@,
                app_secret: app_secret@,
            }),
            Channel::IMessage => channel.spec_name() == "imessage"@ && channel@ is IMessage,
        },
        channels_of(channels).len() == channels.len(),
        forall|i: int|
            0 <= i < channels.len() ==> #[trigger] channels_of(channels)[i] == channels[i]@,
{
}

/// Scheduled tasks are delivered on the web, and on iMessage before that if it is enabled.
pub proof fn law_scheduled_channels(imessage: Seq<char>, web: Seq<char>)
    ensures
        only_if(true, imessage) + seq![web] == seq![imessage, web],
        only_if(false, imessage) + seq![web] == seq![web],
{
    assert(only_if(true, imessage) + seq![web] =~= seq![imessage, web]);
    assert(only_if(false, imessage) + seq![web] =~= seq![web]);
}

/// News are classified by the model that is configured, without white space at its ends; only
/// if none is configured by the default.
pub proof fn law_configured_model_goes_first(configured: Seq<char>)
    ensures
        (exists|i: int| 0 <= i < configured.len() && !text::white_space(#[trigger] configured[i]))
            ==> classifier_model(configured) == text::trimmed(configured),
        (forall|i: int| 0 <= i < configured.len() ==> text::white_space(#[trigger] configured[i]))
            ==> classifier_model(configured) == "amazon/nova-lite-v1"@,
{
    law_blank(configured);
}

/// The auxiliary model is reached as it is configured: at its own address, by its own name,
/// with its own key, in its own time, and with no more tokens than it is given or than can be
/// asked for. It is named if and only if neither address nor name is blank; a word stands in
/// for a key that is empty.
pub proof fn law_auxiliary_model_is_the_configured_one(
    config: AuxiliaryConfig,
    model: AuxiliaryModel,
)
    ensures
        config.complete() <==> text::trimmed(config.base_url@).len() > 0 && text::trimmed(
            config.model@,
        ).len() > 0,
        config.describes(model) ==> {
            &&& model.base_url@ == text::trimmed(config.base_url@)
            &&& model.model@ == text::trimmed(config.model@)
            &&& config.resolved_api_key@.len() > 0 ==> model.api_key@ == config.resolved_api_key@
            &&& config.resolved_api_key@.len() == 0 ==> model.api_key@ == "ollama"@
            &&& model.timeout == config.timeout
            &&& model.max_tokens <= config.max_tokens
            &&& model.max_tokens == config.max_tokens || model.max_tokens == 65535
        },
{
}

/// A local address is that of this machine with the port in decimal behind it.
pub proof fn law_addresses_are_local(port: u16)
    ensures
        "127.0.0.1:"@.is_prefix_of(local_address(port)),
        text::decimal_value(local_address(port).skip("127.0.0.1:"@.len() as int)) == port,
        local_address(port).skip("127.0.0.1:"@.len() as int) == text::numeral(port as nat),
        DEFAULT_UDP_PORT == 18118,
{
    text::law_numeral_stands_for_its_number(port as nat);
    assert(local_address(port).skip("127.0.0.1:"@.len() as int) =~= text::numeral(port as nat));
}

/// A failure to start is told in the words of the step that failed, with the address where a
/// port could not be bound, and with the reason at the end.
pub proof fn law_failures_are_told_by_step(
    stage: StartStage,
    admin: u16,
    public: u16,
    reason: Seq<char>,
)
    ensures
        failure_text(StartStage::LoadConfig, admin, Some(public), reason) == "配置加载失败: "@
            + reason,
        failure_text(StartStage::OpenAuth, admin, Some(public), reason)
            == "Web Auth 存储初始化失败: "@ + reason,
        failure_text(StartStage::BuildClient, admin, Some(public), reason)
            == "HTTP client 构建失败: "@ + reason,
        failure_text(StartStage::BindAdmin, admin, Some(public), reason)
            == "无法绑定端口 "@ + ("127.0.0.1:"@ + text::numeral(admin as nat)) + ": "@ + reason,
        failure_text(StartStage::ReadAdminPort, admin, Some(public), reason)
            == "获取端口失败: "@ + reason,
        failure_text(StartStage::BindPublic, admin, Some(public), reason)
            == "无法绑定用户端口 "@ + ("127.0.0.1:"@ + text::numeral(public as nat)) + ": "@
            + reason,
        failure_text(StartStage::ReadPublicPort, admin, Some(public), reason)
            == "获取用户端口失败: "@ + reason,
        stage != StartStage::BindPublic ==> failure_text(stage, admin, None, reason)
            == failure_text(stage, admin, Some(public), reason),
{
}

/// The steps come one after the other, and those of the port for users only if one is wanted.
pub proof fn law_steps_come_in_order(public: u16)
    ensures
        stage_after(StartStage::LoadConfig, Some(public)) is OpenAuth,
        stage_after(StartStage::OpenAuth, Some(public)) is BuildClient,
        stage_after(StartStage::BuildClient, Some(public)) is BindAdmin,
        stage_after(StartStage::BindAdmin, Some(public)) is ReadAdminPort,
        stage_after(StartStage::ReadAdminPort, Some(public)) is BindPublic,
        stage_after(StartStage::BindPublic, Some(public)) is ReadPublicPort,
        stage_after(StartStage::ReadPublicPort, Some(public)) is Serving,
        stage_after(StartStage::LoadConfig, None) is OpenAuth,
        stage_after(StartStage::OpenAuth, None) is BuildClient,
        stage_after(StartStage::BuildClient, None) is BindAdmin,
        stage_after(StartStage::BindAdmin, None) is ReadAdminPort,
        stage_after(StartStage::ReadAdminPort, None) is Serving,
{
}

/// A step that reads a port ends with a port or a failure, any other ends done or with a
/// failure, and nothing happens any more to a server that runs or has failed.
pub proof fn law_steps_end_as_they_can(startup: Startup, input: StartInput)
    ensures
        startup.stage is ReadAdminPort || startup.stage is ReadPublicPort ==> (startup.possible(
            input,
        ) <==> input is Port || input is Failed),
        startup.stage is Serving || startup.stage is Failed ==> !startup.possible(input),
        startup.stage is LoadConfig || startup.stage is OpenAuth || startup.stage is BuildClient
            || startup.stage is BindAdmin || startup.stage is BindPublic ==> (startup.possible(
            input,
        ) <==> input is Done || input is Failed),
        startup.well_formed() <==> (startup.stage is BindPublic || startup.stage is ReadPublicPort
            ==> startup.wanted_public is Some),
{
}

}
