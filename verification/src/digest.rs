//! What a user of the public site sees of the digest, and how it is renewed.
//!
//! The theses of a user are distilled from the profiles of the companies that the user
//! holds. The user sees the theses and the profiles, and can have the theses distilled
//! again. All of it concerns the user who is logged in and nobody else.

use vstd::prelude::*;

use crate::body;
use crate::body::Body;
use crate::body::BodyView;
use crate::chat::ActorRequest;
use crate::event;
use crate::text;

verus! {

/// How many characters of a profile a list of profiles shows.
pub const PREVIEW_CHARS: usize = 200;

/// The status of an answer to a request that cannot be granted as it is.
pub const BAD_REQUEST: u16 = 400;

/// The status of an answer to a request for what there is not.
pub const NOT_FOUND: u16 = 404;

/// The status of an answer to a request that something went wrong with.
pub const INTERNAL_SERVER_ERROR: u16 = 500;

/// An answer that grants nothing: a status and what to tell the user.
#[derive(Debug)]
pub struct Refusal {
    pub status: u16,
    pub message: String,
}

/// What a [`Refusal`] says.
#[verifier::ext_equal]
pub struct RefusalView {
    pub status: u16,
    pub message: Seq<char>,
}

impl Refusal {
    pub open spec fn view(&self) -> RefusalView {
        RefusalView { status: self.status, message: self.message@ }
    }

    fn new(status: u16, message: &str) -> (refusal: Refusal)
        ensures
            refusal@ == (RefusalView { status, message: message@ }),
    {
        Refusal { status, message: message.to_owned() }
    }

    fn because(status: u16, what: &str, reason: &str) -> (refusal: Refusal)
        ensures
            refusal@ == (RefusalView { status, message: what@ + reason@ }),
    {
        Refusal { status, message: text::concat2(what, reason) }
    }
}

/// What an answer says.
pub open spec fn answer_view(answer: Result<Body, Refusal>) -> Result<BodyView, RefusalView> {
    match answer {
        Ok(body) => Ok(body@),
        Err(refusal) => Err(refusal@),
    }
}

/// Who a request of the public site concerns: the user who is logged in, and nobody else.
pub fn public_actor(user_id: &str) -> (request: ActorRequest)
    ensures
        request.channel@ == "web"@,
        request.user_id@ == user_id@,
        request.scope is None,
{
    ActorRequest { channel: "web".to_owned(), user_id: user_id.to_owned(), scope: None }
}

/// The answer if the identity of the user is not accepted.
pub fn actor_refusal(reason: &str) -> (refusal: Refusal)
    ensures
        refusal@ == (RefusalView {
            status: INTERNAL_SERVER_ERROR,
            message: "构造 actor 失败: "@ + reason@,
        }),
{
    Refusal::because(INTERNAL_SERVER_ERROR, "构造 actor 失败: ", reason)
}

/// The answer if the preferences of users cannot be opened.
pub fn prefs_refusal(reason: &str) -> (refusal: Refusal)
    ensures
        refusal@ == (RefusalView {
            status: INTERNAL_SERVER_ERROR,
            message: "打开 prefs 失败: "@ + reason@,
        }),
{
    Refusal::because(INTERNAL_SERVER_ERROR, "打开 prefs 失败: ", reason)
}

// ---------------------------------------------------------------------------
// Profiles
// ---------------------------------------------------------------------------
/// An entry of the directory of profiles: its name if that is text, whether it is a
/// directory, the profile in it if there is one that can be read, and the tickers that
/// the profile is about.
#[derive(Debug)]
pub struct ProfileEntry {
    pub dir_name: Option<String>,
    pub is_dir: bool,
    pub markdown: Option<String>,
    pub tickers: Vec<String>,
}

/// The title of a profile: its first line without the marks of a heading.
pub open spec fn title_of(markdown: Seq<char>) -> Seq<char> {
    text::trimmed(text::unhashed(text::first_line_of(markdown)))
}

/// What a list of profiles shows of one.
pub open spec fn summary_of(
    dir_name: Seq<char>,
    markdown: Seq<char>,
    tickers: Seq<Seq<char>>,
) -> BodyView {
    BodyView::Record(
        seq![
            ("dir"@, BodyView::Text(dir_name)),
            ("tickers"@, body::text_list(tickers)),
            ("title"@, BodyView::Text(title_of(markdown))),
            ("preview"@, BodyView::Text(text::prefix_of(markdown, PREVIEW_CHARS as int))),
            ("bytes"@, BodyView::Count(text::byte_count(markdown))),
        ],
    )
}

/// What a list of profiles shows of an entry; nothing if the entry is no directory with a
/// name and a profile.
pub open spec fn entry_summary(entry: ProfileEntry) -> Option<BodyView> {
    match (entry.dir_name, entry.markdown) {
        (Some(dir_name), Some(markdown)) => if entry.is_dir {
            Some(summary_of(dir_name@, markdown@, event::texts_of(entry.tickers@)))
        } else {
            None
        },
        _ => None,
    }
}

/// What a list of profiles shows of one: its directory, its tickers, its title, its first
/// characters and how many bytes it has.
pub fn profile_summary(dir_name: &str, markdown: &str, tickers: &Vec<String>) -> (summary: Body)
    ensures
        summary@ == summary_of(dir_name@, markdown@, event::texts_of(tickers@)),
{
    let title = text::trim(text::strip_hashes(text::first_line(markdown)));
    let bytes: u64 = markdown.as_bytes().len() as u64;
    let members: Vec<(String, Body)> = vec![
        ("dir".to_owned(), Body::text(dir_name)),
        ("tickers".to_owned(), Body::texts(tickers)),
        ("title".to_owned(), Body::text(title)),
        ("preview".to_owned(), Body::text(text::prefix(markdown, PREVIEW_CHARS))),
        ("bytes".to_owned(), Body::Count(bytes)),
    ];
    assert(body::members_of(members@) =~= summary_of(
        dir_name@,
        markdown@,
        event::texts_of(tickers@),
    )->Record_0);
    Body::record(members)
}

/// The list of profiles, in the order of the entries.
pub fn list_profile_summaries(entries: &Vec<ProfileEntry>) -> (summaries: Vec<Body>)
    ensures
        body::bodies_of(summaries@) == event::kept(
            entries@.len(),
            |i: int| entry_summary(entries@[i]),
        ),
{
    let mut summaries: Vec<Body> = Vec::new();
    let ghost found = |i: int| entry_summary(entries@[i]);
    assert(body::bodies_of(summaries@) =~= Seq::empty());
    let mut i: usize = 0;
    while i < entries.len()
        invariant
            i <= entries@.len(),
            found == (|i: int| entry_summary(entries@[i])),
            body::bodies_of(summaries@) == event::kept(i as nat, found),
        decreases entries@.len() - i,
    {
        let entry = &entries[i];
        match (&entry.dir_name, &entry.markdown) {
            (Some(dir_name), Some(markdown)) => {
                if entry.is_dir {
                    let summary = profile_summary(
                        dir_name.as_str(),
                        markdown.as_str(),
                        &entry.tickers,
                    );
                    let ghost before = summaries@;
                    summaries.push(summary);
                    assert(body::bodies_of(summaries@) =~= body::bodies_of(before).push(summary@));
                }
            },
            _ => {},
        }
        i = i + 1;
    }
    summaries
}

/// The profile of a company.
#[derive(Debug)]
pub struct Profile {
    pub ticker: String,
    pub dir_name: String,
    pub markdown: String,
}

/// The answer that shows a profile.
pub open spec fn profile_body(profile: Profile) -> BodyView {
    BodyView::Record(
        seq![
            ("ticker"@, BodyView::Text(profile.ticker@)),
            ("dir"@, BodyView::Text(profile.dir_name@)),
            ("markdown"@, BodyView::Text(profile.markdown@)),
        ],
    )
}

/// The first of the profiles that is of the ticker.
pub open spec fn first_profile(profiles: Seq<Profile>, ticker: Seq<char>) -> Option<Profile>
    decreases profiles.len(),
{
    if profiles.len() == 0 {
        None
    } else if profiles.first().ticker@ == ticker {
        Some(profiles.first())
    } else {
        first_profile(profiles.drop_first(), ticker)
    }
}

/// The answer to a request for a ticker.
pub open spec fn profile_answer(profiles: Seq<Profile>, ticker: Seq<char>) -> Result<
    BodyView,
    RefusalView,
> {
    match first_profile(profiles, ticker) {
        Some(profile) => Ok(profile_body(profile)),
        None => Err(
            RefusalView {
                status: NOT_FOUND,
                message: "未找到 ticker="@ + ticker
                    + " 的画像;请通过 chat 触发 company_portrait skill 建档"@,
            },
        ),
    }
}

/// The ticker, or the answer to a request for no ticker.
pub open spec fn ticker_or_refusal(ticker: Seq<char>) -> Result<Seq<char>, RefusalView> {
    if ticker.len() == 0 {
        Err(RefusalView { status: BAD_REQUEST, message: "ticker 不能为空"@ })
    } else {
        Ok(ticker)
    }
}

/// What the result of reading a ticker says.
pub open spec fn ticker_view(ticker: Result<String, Refusal>) -> Result<Seq<char>, RefusalView> {
    match ticker {
        Ok(ticker) => Ok(ticker@),
        Err(refusal) => Err(refusal@),
    }
}

/// The ticker, or the answer to a request for no ticker.
pub fn accept_ticker(ticker: String) -> (accepted: Result<String, Refusal>)
    ensures
        ticker_view(accepted) == ticker_or_refusal(ticker@),
{
    if ticker.as_str().is_empty() {
        Err(Refusal::new(BAD_REQUEST, "ticker 不能为空"))
    } else {
        Ok(ticker)
    }
}

/// The ticker that a request asks for, which is its text in upper case and without white
/// space at its ends, or the answer to a request for no ticker.
pub fn requested_ticker(query: &str) -> (ticker: Result<String, Refusal>)
    ensures
        ticker_view(ticker) == ticker_or_refusal(text::uppercased(text::trimmed(query@))),
        vstd::utf8::is_ascii_chars(text::trimmed(query@)) ==> ticker_view(ticker)
            == ticker_or_refusal(
            text::trimmed(query@).map_values(|c: char| text::ascii_upper(c)),
        ),
{
    accept_ticker(text::to_upper(text::trim(query)))
}

/// The answer to a request for a ticker: the first profile that is of it, or that there is
/// none.
pub fn find_profile(profiles: &Vec<Profile>, ticker: &str) -> (answer: Result<Body, Refusal>)
    ensures
        answer_view(answer) == profile_answer(profiles@, ticker@),
{
    let mut i: usize = 0;
    assert(profiles@.skip(0) =~= profiles@);
    while i < profiles.len()
        invariant
            i <= profiles@.len(),
            first_profile(profiles@, ticker@) == first_profile(profiles@.skip(i as int), ticker@),
        decreases profiles@.len() - i,
    {
        let profile = &profiles[i];
        assert(profiles@.skip(i as int).first() == *profile);
        if text::same_text(profile.ticker.as_str(), ticker) {
            let members: Vec<(String, Body)> = vec![
                ("ticker".to_owned(), Body::text(profile.ticker.as_str())),
                ("dir".to_owned(), Body::text(profile.dir_name.as_str())),
                ("markdown".to_owned(), Body::text(profile.markdown.as_str())),
            ];
            assert(body::members_of(members@) =~= profile_body(*profile)->Record_0);
            return Ok(Body::record(members));
        }
        assert(profiles@.skip(i as int).drop_first() =~= profiles@.skip(i + 1));
        i = i + 1;
    }
    let message = text::concat3(
        "未找到 ticker=",
        ticker,
        " 的画像;请通过 chat 触发 company_portrait skill 建档",
    );
    Err(Refusal { status: NOT_FOUND, message })
}

// ---------------------------------------------------------------------------
// The digest of a user
// ---------------------------------------------------------------------------
/// What is kept for a user of the digest. The theses are pairs of a ticker and its thesis,
/// where no ticker occurs twice.
#[derive(Debug)]
pub struct DigestPrefs {
    pub investment_global_style: Option<String>,
    pub investment_theses: Option<Vec<(String, String)>>,
    pub global_digest_enabled: bool,
    pub global_digest_floor_macro_picks: u64,
    pub last_thesis_distilled_at: Option<String>,
    pub thesis_distill_skipped: Vec<String>,
}

/// What came of the attempt to read the portfolio of a user.
#[derive(Debug)]
pub enum PortfolioLookup {
    /// The portfolio, with the symbols that it holds.
    Found { holdings: Vec<String> },
    /// The user has no portfolio.
    Missing,
    /// The portfolio could not be read, for the reason given.
    Failed { reason: String },
}

impl PortfolioLookup {
    /// The symbols that are held, as far as known.
    pub open spec fn known_holdings(self) -> Seq<Seq<char>> {
        match self {
            PortfolioLookup::Found { holdings } => event::texts_of(holdings@),
            _ => Seq::empty(),
        }
    }
}

/// The theses; none are an empty list.
pub open spec fn theses_of(theses: Option<Vec<(String, String)>>) -> Seq<(Seq<char>, Seq<char>)> {
    match theses {
        Some(pairs) => pairs@.map_values(|p: (String, String)| (p.0@, p.1@)),
        None => Seq::empty(),
    }
}

impl DigestPrefs {
    /// The tickers that there is a thesis of.
    pub open spec fn tickers(self) -> Seq<Seq<char>> {
        theses_of(self.investment_theses).map_values(|p: (Seq<char>, Seq<char>)| p.0)
    }

    /// Whether no ticker has two theses.
    pub open spec fn well_formed(self) -> bool {
        self.tickers().no_duplicates()
    }

    /// Whether no ticker has two theses.
    pub fn is_well_formed(&self) -> (yes: bool)
        ensures
            yes == self.well_formed(),
    {
        let pairs = match &self.investment_theses {
            Some(pairs) => pairs,
            None => {
                return true;
            },
        };
        let ghost tickers = self.tickers();
        let mut i: usize = 0;
        while i < pairs.len()
            invariant
                i <= pairs@.len() == tickers.len(),
                tickers == self.tickers(),
                forall|k: int| 0 <= k < pairs@.len() ==> tickers[k] == (#[trigger] pairs@[k]).0@,
                forall|k: int, l: int| 0 <= k < l < i ==> tickers[k] != tickers[l],
            decreases pairs@.len() - i,
        {
            let mut j: usize = 0;
            while j < i
                invariant
                    j <= i < pairs@.len() == tickers.len(),
                    tickers == self.tickers(),
                    forall|k: int|
                        0 <= k < pairs@.len() ==> tickers[k] == (#[trigger] pairs@[k]).0@,
                    forall|k: int| 0 <= k < j ==> tickers[k] != tickers[i as int],
                decreases i - j,
            {
                if text::same_text(pairs[j].0.as_str(), pairs[i].0.as_str()) {
                    assert(tickers[j as int] == tickers[i as int]);
                    return false;
                }
                j = j + 1;
            }
            i = i + 1;
        }
        true
    }
}

/// The theses as a record.
pub open spec fn theses_body(theses: Seq<(Seq<char>, Seq<char>)>) -> BodyView {
    BodyView::Record(
        theses.map_values(|p: (Seq<char>, Seq<char>)| (p.0, BodyView::Text(p.1))),
    )
}

/// The answer that shows the digest of a user.
pub open spec fn context_of(
    user_id: Seq<char>,
    prefs: DigestPrefs,
    holdings: Seq<Seq<char>>,
    profiles: Seq<BodyView>,
) -> BodyView {
    BodyView::Record(
        seq![
            (
                "actor"@,
                BodyView::Record(
                    seq![
                        ("channel"@, BodyView::Text("web"@)),
                        ("user_id"@, BodyView::Text(user_id)),
                    ],
                ),
            ),
            (
                "investment_global_style"@,
                body::text_or_null(event::option_text(prefs.investment_global_style)),
            ),
            ("investment_theses"@, theses_body(theses_of(prefs.investment_theses))),
            ("global_digest_enabled"@, BodyView::Flag(prefs.global_digest_enabled)),
            (
                "global_digest_floor_macro_picks"@,
                BodyView::Count(prefs.global_digest_floor_macro_picks as nat),
            ),
            (
                "last_thesis_distilled_at"@,
                body::text_or_null(event::option_text(prefs.last_thesis_distilled_at)),
            ),
            (
                "thesis_distill_skipped"@,
                body::text_list(event::texts_of(prefs.thesis_distill_skipped@)),
            ),
            ("holdings"@, body::text_list(holdings)),
            ("profile_list"@, BodyView::List(profiles)),
        ],
    )
}

fn theses_record(theses: &Option<Vec<(String, String)>>) -> (record: Body)
    ensures
        record@ == theses_body(theses_of(*theses)),
{
    let mut members: Vec<(String, Body)> = Vec::new();
    match theses {
        Some(pairs) => {
            let mut i: usize = 0;
            while i < pairs.len()
                invariant
                    i <= pairs@.len(),
                    members@.len() == i,
                    forall|j: int|
                        0 <= j < i ==> (#[trigger] members@[j]).0@ == pairs@[j].0@
                            && members@[j].1@ == BodyView::Text(pairs@[j].1@),
                decreases pairs@.len() - i,
            {
                members.push((pairs[i].0.clone(), Body::Text(pairs[i].1.clone())));
                i = i + 1;
            }
        },
        None => {},
    }
    assert(body::members_of(members@) =~= theses_body(theses_of(*theses))->Record_0);
    Body::record(members)
}

/// The answer that shows the digest of the user: the preferences, the symbols that are
/// held, and the list of profiles. A portfolio that is missing or cannot be read holds no
/// symbols.
pub fn digest_context(
    user_id: &str,
    prefs: &DigestPrefs,
    portfolio: &PortfolioLookup,
    profiles: Vec<Body>,
) -> (context: Body)
    requires
        prefs.well_formed(),
    ensures
        context@ == context_of(
            user_id@,
            *prefs,
            portfolio.known_holdings(),
            body::bodies_of(profiles@),
        ),
{
    let none: Vec<String> = Vec::new();
    assert(event::texts_of(none@) =~= Seq::empty());
    let holdings = match portfolio {
        PortfolioLookup::Found { holdings } => holdings,
        _ => &none,
    };
    let actor_members: Vec<(String, Body)> = vec![
        ("channel".to_owned(), Body::text("web")),
        ("user_id".to_owned(), Body::text(user_id)),
    ];
    assert(body::members_of(actor_members@) =~= seq![
        ("channel"@, BodyView::Text("web"@)),
        ("user_id"@, BodyView::Text(user_id@)),
    ]);
    let actor = Body::record(actor_members);
    let list = Body::list(profiles);
    let members: Vec<(String, Body)> = vec![
        ("actor".to_owned(), actor),
        (
            "investment_global_style".to_owned(),
            Body::optional_text(&prefs.investment_global_style),
        ),
        ("investment_theses".to_owned(), theses_record(&prefs.investment_theses)),
        ("global_digest_enabled".to_owned(), Body::Flag(prefs.global_digest_enabled)),
        (
            "global_digest_floor_macro_picks".to_owned(),
            Body::Count(prefs.global_digest_floor_macro_picks),
        ),
        (
            "last_thesis_distilled_at".to_owned(),
            Body::optional_text(&prefs.last_thesis_distilled_at),
        ),
        ("thesis_distill_skipped".to_owned(), Body::texts(&prefs.thesis_distill_skipped)),
        ("holdings".to_owned(), Body::texts(holdings)),
        ("profile_list".to_owned(), list),
    ];
    assert(body::members_of(members@) =~= context_of(
        user_id@,
        *prefs,
        portfolio.known_holdings(),
        body::bodies_of(profiles@),
    )->Record_0);
    Body::record(members)
}

// ---------------------------------------------------------------------------
// Distilling again
// ---------------------------------------------------------------------------
/// How far a request to distill the theses again has come.
#[derive(Clone, Copy, Debug, PartialEq, Eq, Structural)]
pub enum RefreshStage {
    /// The portfolio of the user is to be read.
    LoadPortfolio,
    /// A language model is to be found.
    FindModel,
    /// The preferences of users are to be opened.
    OpenPrefs,
    /// The theses are to be distilled from the profiles of what is held.
    Distill,
    /// The request has its answer.
    Answered,
}

/// What happened to a request to distill the theses again.
#[derive(Debug)]
pub enum RefreshInput {
    /// What came of the attempt to read the portfolio.
    Portfolio(PortfolioLookup),
    /// Whether there is a language model.
    Model { available: bool },
    /// The preferences are open, or could not be opened for the reason given.
    Prefs { failure: Option<String> },
    /// The theses have been distilled and kept.
    Distilled(DigestPrefs),
    /// The theses could not be distilled, for the reason given.
    NotDistilled { reason: String },
}

/// The answer that says what was distilled.
pub open spec fn report_of(prefs: DigestPrefs) -> BodyView {
    BodyView::Record(
        seq![
            ("ok"@, BodyView::Flag(true)),
            ("theses_count"@, BodyView::Count(theses_of(prefs.investment_theses).len())),
            ("global_style_set"@, BodyView::Flag(prefs.investment_global_style is Some)),
            (
                "skipped_tickers"@,
                body::text_list(event::texts_of(prefs.thesis_distill_skipped@)),
            ),
            (
                "last_distilled_at"@,
                body::text_or_null(event::option_text(prefs.last_thesis_distilled_at)),
            ),
        ],
    )
}

/// The answer that says what was distilled.
pub fn refresh_report(prefs: &DigestPrefs) -> (report: Body)
    requires
        prefs.well_formed(),
    ensures
        report@ == report_of(*prefs),
{
    let count: u64 = match &prefs.investment_theses {
        Some(pairs) => pairs.len() as u64,
        None => 0,
    };
    let members: Vec<(String, Body)> = vec![
        ("ok".to_owned(), Body::Flag(true)),
        ("theses_count".to_owned(), Body::Count(count)),
        ("global_style_set".to_owned(), Body::Flag(prefs.investment_global_style.is_some())),
        ("skipped_tickers".to_owned(), Body::texts(&prefs.thesis_distill_skipped)),
        ("last_distilled_at".to_owned(), Body::optional_text(&prefs.last_thesis_distilled_at)),
    ];
    assert(body::members_of(members@) =~= report_of(*prefs)->Record_0);
    Body::record(members)
}

impl RefreshInput {
    /// Whether this can happen to a request at the stage.
    pub open spec fn possible_at(self, stage: RefreshStage) -> bool {
        match stage {
            RefreshStage::LoadPortfolio => self is Portfolio,
            RefreshStage::FindModel => self is Model,
            RefreshStage::OpenPrefs => self is Prefs,
            RefreshStage::Distill => match self {
                RefreshInput::Distilled(prefs) => prefs.well_formed(),
                _ => self is NotDistilled,
            },
            RefreshStage::Answered => false,
        }
    }

    /// The answer that it leads to; none if the request goes on.
    pub open spec fn answer(self) -> Option<Result<BodyView, RefusalView>> {
        match self {
            RefreshInput::Portfolio(PortfolioLookup::Found { holdings }) => if holdings@.len()
                == 0 {
                Some(
                    Err(RefusalView { status: BAD_REQUEST, message: "portfolio 持仓为空"@ }),
                )
            } else {
                None
            },
            RefreshInput::Portfolio(PortfolioLookup::Missing) => Some(
                Err(
                    RefusalView {
                        status: NOT_FOUND,
                        message: "actor 没有 portfolio,无法蒸馏 thesis(请先建仓)"@,
                    },
                ),
            ),
            RefreshInput::Portfolio(PortfolioLookup::Failed { reason }) => Some(
                Err(
                    RefusalView {
                        status: INTERNAL_SERVER_ERROR,
                        message: "读 portfolio 失败: "@ + reason@,
                    },
                ),
            ),
            RefreshInput::Model { available } => if available {
                None
            } else {
                Some(
                    Err(
                        RefusalView {
                            status: INTERNAL_SERVER_ERROR,
                            message: "thesis 蒸馏 LLM 不可用（请配置 llm.auxiliary 指向 Ollama，或配置可用的 llm.openrouter）"@,
                        },
                    ),
                )
            },
            RefreshInput::Prefs { failure: None } => None,
            RefreshInput::Prefs { failure: Some(reason) } => Some(
                Err(
                    RefusalView {
                        status: INTERNAL_SERVER_ERROR,
                        message: "打开 prefs 目录失败: "@ + reason@,
                    },
                ),
            ),
            RefreshInput::Distilled(prefs) => Some(Ok(report_of(prefs))),
            RefreshInput::NotDistilled { reason } => Some(
                Err(
                    RefusalView {
                        status: INTERNAL_SERVER_ERROR,
                        message: "蒸馏失败: "@ + reason@,
                    },
                ),
            ),
        }
    }

    /// The stage that the request comes to.
    pub open spec fn next_stage(self) -> RefreshStage {
        if self.answer() is Some {
            RefreshStage::Answered
        } else {
            match self {
                RefreshInput::Portfolio(_) => RefreshStage::FindModel,
                RefreshInput::Model { .. } => RefreshStage::OpenPrefs,
                _ => RefreshStage::Distill,
            }
        }
    }
}

/// A request to distill the theses again: how far it has come, and the symbols that are
/// held once they are known.
#[derive(Debug)]
pub struct Refresh {
    pub stage: RefreshStage,
    pub holdings: Vec<String>,
}

impl Refresh {
    /// Whether something is held as soon as that has to be.
    pub open spec fn well_formed(self) -> bool {
        match self.stage {
            RefreshStage::FindModel | RefreshStage::OpenPrefs | RefreshStage::Distill =>
                self.holdings@.len() > 0,
            _ => true,
        }
    }

    /// A request that has just come in.
    pub fn new() -> (refresh: Refresh)
        ensures
            refresh.stage == RefreshStage::LoadPortfolio,
            refresh.holdings@.len() == 0,
            refresh.well_formed(),
    {
        Refresh { stage: RefreshStage::LoadPortfolio, holdings: Vec::new() }
    }

    /// Takes what happened and gives the answer, or none if the request goes on.
    pub fn step(&mut self, input: RefreshInput) -> (answer: Option<Result<Body, Refusal>>)
        requires
            old(self).well_formed(),
            input.possible_at(old(self).stage),
        ensures
            final(self).well_formed(),
            final(self).stage == input.next_stage(),
            match answer {
                Some(a) => input.answer() == Some(answer_view(a)),
                None => input.answer() is None,
            },
            event::texts_of(final(self).holdings@) == match input {
                RefreshInput::Portfolio(lookup) => lookup.known_holdings(),
                _ => event::texts_of(old(self).holdings@),
            },
    {
        match input {
            RefreshInput::Portfolio(lookup) => {
                self.holdings = Vec::new();
                assert(event::texts_of(self.holdings@) =~= Seq::empty());
                match lookup {
                    PortfolioLookup::Found { holdings } => {
                        self.holdings = holdings;
                        if self.holdings.len() == 0 {
                            self.stage = RefreshStage::Answered;
                            Some(Err(Refusal::new(BAD_REQUEST, "portfolio 持仓为空")))
                        } else {
                            self.stage = RefreshStage::FindModel;
                            None
                        }
                    },
                    PortfolioLookup::Missing => {
                        self.stage = RefreshStage::Answered;
                        Some(
                            Err(
                                Refusal::new(
                                    NOT_FOUND,
                                    "actor 没有 portfolio,无法蒸馏 thesis(请先建仓)",
                                ),
                            ),
                        )
                    },
                    PortfolioLookup::Failed { reason } => {
                        self.stage = RefreshStage::Answered;
                        Some(
                            Err(
                                Refusal::because(
                                    INTERNAL_SERVER_ERROR,
                                    "读 portfolio 失败: ",
                                    reason.as_str(),
                                ),
                            ),
                        )
                    },
                }
            },
            RefreshInput::Model { available } => {
                if available {
                    self.stage = RefreshStage::OpenPrefs;
                    None
                } else {
                    self.stage = RefreshStage::Answered;
                    Some(
                        Err(
                            Refusal::new(
                                INTERNAL_SERVER_ERROR,
                                "thesis 蒸馏 LLM 不可用（请配置 llm.auxiliary 指向 Ollama，或配置可用的 llm.openrouter）",
                            ),
                        ),
                    )
                }
            },
            RefreshInput::Prefs { failure } => {
                match failure {
                    None => {
                        self.stage = RefreshStage::Distill;
                        None
                    },
                    Some(reason) => {
                        self.stage = RefreshStage::Answered;
                        Some(
                            Err(
                                Refusal::because(
                                    INTERNAL_SERVER_ERROR,
                                    "打开 prefs 目录失败: ",
                                    reason.as_str(),
                                ),
                            ),
                        )
                    },
                }
            },
            RefreshInput::Distilled(prefs) => {
                self.stage = RefreshStage::Answered;
                Some(Ok(refresh_report(&prefs)))
            },
            RefreshInput::NotDistilled { reason } => {
                self.stage = RefreshStage::Answered;
                Some(
                    Err(
                        Refusal::because(INTERNAL_SERVER_ERROR, "蒸馏失败: ", reason.as_str()),
                    ),
                )
            },
        }
    }
}

// ---------------------------------------------------------------------------
// What holds of every request
// ---------------------------------------------------------------------------
/// A request is granted only once the theses have been distilled; whatever goes wrong
/// before, it is refused. Nothing is refused with a status that says success.
pub proof fn law_refresh_grants_only_what_was_distilled(input: RefreshInput)
    ensures
        (input.answer() matches Some(answer) && answer is Ok) <==> input is Distilled,
        input.answer() matches Some(Err(refusal)) ==> refusal.status == BAD_REQUEST
            || refusal.status == NOT_FOUND || refusal.status == INTERNAL_SERVER_ERROR,
        input.next_stage() == RefreshStage::Answered <==> input.answer() is Some,
{
}

/// The stage that a request comes to after the inputs.
pub open spec fn stage_after(inputs: Seq<RefreshInput>) -> RefreshStage {
    if inputs.len() == 0 {
        RefreshStage::LoadPortfolio
    } else {
        inputs.last().next_stage()
    }
}

/// What a request takes for held after the inputs.
pub open spec fn holdings_after(inputs: Seq<RefreshInput>) -> Seq<Seq<char>>
    decreases inputs.len(),
{
    if inputs.len() == 0 {
        Seq::empty()
    } else {
        match inputs.last() {
            RefreshInput::Portfolio(lookup) => lookup.known_holdings(),
            _ => holdings_after(inputs.drop_last()),
        }
    }
}

/// Whether each of the inputs can happen to a request after those before it.
pub open spec fn can_happen(inputs: Seq<RefreshInput>) -> bool {
    forall|i: int|
        0 <= i < inputs.len() ==> (#[trigger] inputs[i]).possible_at(stage_after(inputs.take(i)))
}

/// Where a request goes on, and to which stage.
proof fn lemma_next_stage(input: RefreshInput)
    ensures
        input.next_stage() == match input {
            RefreshInput::Portfolio(PortfolioLookup::Found { holdings }) => if holdings@.len()
                > 0 {
                RefreshStage::FindModel
            } else {
                RefreshStage::Answered
            },
            RefreshInput::Model { available: true } => RefreshStage::OpenPrefs,
            RefreshInput::Prefs { failure: None } => RefreshStage::Distill,
            _ => RefreshStage::Answered,
        },
{
}

/// Each input can happen at the stage that the one before it led to.
proof fn lemma_input_follows(inputs: Seq<RefreshInput>, i: int)
    requires
        can_happen(inputs),
        0 < i < inputs.len(),
    ensures
        inputs[i].possible_at(inputs[i - 1].next_stage()),
{
    assert(inputs[i].possible_at(stage_after(inputs.take(i))));
    assert(inputs.take(i).last() == inputs[i - 1]);
}

/// The first input is about the portfolio.
proof fn lemma_first_input(inputs: Seq<RefreshInput>)
    requires
        can_happen(inputs),
        inputs.len() > 0,
    ensures
        inputs[0] is Portfolio,
{
    assert(inputs[0].possible_at(stage_after(inputs.take(0))));
}

/// A second input is about the model, and comes only if something is held.
proof fn lemma_second_input(inputs: Seq<RefreshInput>)
    requires
        can_happen(inputs),
        inputs.len() > 1,
    ensures
        inputs[0] matches RefreshInput::Portfolio(PortfolioLookup::Found { holdings })
            && holdings@.len() > 0,
        inputs[1] is Model,
{
    lemma_first_input(inputs);
    lemma_next_stage(inputs[0]);
    lemma_input_follows(inputs, 1);
}

/// A third input is about the preferences, and comes only if there is a model.
proof fn lemma_third_input(inputs: Seq<RefreshInput>)
    requires
        can_happen(inputs),
        inputs.len() > 2,
    ensures
        inputs[1] matches RefreshInput::Model { available } && available,
        inputs[2] is Prefs,
{
    lemma_second_input(inputs);
    lemma_next_stage(inputs[1]);
    lemma_input_follows(inputs, 2);
}

/// A fourth input is about the theses, comes only if the preferences are open, and is the
/// last.
proof fn lemma_fourth_input(inputs: Seq<RefreshInput>)
    requires
        can_happen(inputs),
        inputs.len() > 3,
    ensures
        inputs[3] is Distilled || inputs[3] is NotDistilled,
        inputs.len() == 4,
{
    lemma_third_input(inputs);
    lemma_next_stage(inputs[2]);
    lemma_input_follows(inputs, 3);
    if inputs.len() > 4 {
        lemma_next_stage(inputs[3]);
        lemma_input_follows(inputs, 4);
    }
}

/// What is held stays what the first input said.
proof fn lemma_holdings_stay(inputs: Seq<RefreshInput>)
    requires
        can_happen(inputs),
        inputs.len() == 3,
    ensures
        holdings_after(inputs) == inputs[0]->Portfolio_0.known_holdings(),
{
    lemma_second_input(inputs);
    lemma_third_input(inputs);
    let two = inputs.drop_last();
    let one = two.drop_last();
    assert(inputs.last() == inputs[2]);
    assert(two.last() == inputs[1]);
    assert(one.last() == inputs[0]);
    assert(holdings_after(one) == inputs[0]->Portfolio_0.known_holdings());
    assert(holdings_after(two) == holdings_after(one));
}

/// The theses are distilled only of what the portfolio of the user holds, which is not
/// nothing, and only once there is a language model and the preferences are open. A request
/// has its answer after four inputs at the latest.
pub proof fn law_refresh_distills_what_is_held(inputs: Seq<RefreshInput>)
    requires
        can_happen(inputs),
    ensures
        inputs.len() <= 4,
        inputs.len() == 4 ==> stage_after(inputs) == RefreshStage::Answered,
        stage_after(inputs) == RefreshStage::Distill ==> {
            &&& inputs.len() == 3
            &&& inputs[0] matches RefreshInput::Portfolio(PortfolioLookup::Found { holdings })
                && holdings@.len() > 0 && holdings_after(inputs) == event::texts_of(holdings@)
            &&& inputs[1] matches RefreshInput::Model { available } && available
            &&& inputs[2] matches RefreshInput::Prefs { failure } && failure is None
        },
{
    if inputs.len() > 0 {
        lemma_next_stage(inputs.last());
    }
    if inputs.len() == 1 {
        lemma_first_input(inputs);
    } else if inputs.len() == 2 {
        lemma_second_input(inputs);
    } else if inputs.len() == 3 {
        lemma_second_input(inputs);
        lemma_third_input(inputs);
        lemma_holdings_stay(inputs);
    } else if inputs.len() > 3 {
        lemma_fourth_input(inputs);
    }
}

/// The count of theses in a report is the number of tickers that there is a thesis of, and
/// the record of theses has no member twice.
pub proof fn law_theses_are_counted_by_ticker(prefs: DigestPrefs)
    requires
        prefs.well_formed(),
    ensures
        report_of(prefs)->Record_0.contains(
            ("theses_count"@, BodyView::Count(prefs.tickers().to_set().len())),
        ),
        forall|i: int, j: int|
            #![trigger theses_body(theses_of(prefs.investment_theses))->Record_0[i],
                theses_body(theses_of(prefs.investment_theses))->Record_0[j]]
            0 <= i < j < theses_body(theses_of(prefs.investment_theses))->Record_0.len()
                ==> theses_body(theses_of(prefs.investment_theses))->Record_0[i].0
                != theses_body(theses_of(prefs.investment_theses))->Record_0[j].0,
{
    prefs.tickers().unique_seq_to_set();
    let members = report_of(prefs)->Record_0;
    assert(members[1] == ("theses_count"@, BodyView::Count(prefs.tickers().to_set().len())));
    let record = theses_body(theses_of(prefs.investment_theses))->Record_0;
    assert forall|i: int, j: int|
        #![trigger record[i], record[j]]
        0 <= i < j < record.len() implies record[i].0 != record[j].0 by {
        assert(record[i].0 == prefs.tickers()[i]);
        assert(record[j].0 == prefs.tickers()[j]);
    }
}

/// A profile that is shown is one of the profiles and of the ticker that was asked for,
/// and no profile before it is; none is shown only if none is of the ticker.
pub proof fn law_first_profile(profiles: Seq<Profile>, ticker: Seq<char>)
    ensures
        match first_profile(profiles, ticker) {
            Some(profile) => exists|i: int|
                0 <= i < profiles.len() && #[trigger] profiles[i] == profile && profile.ticker@
                    == ticker && (forall|j: int|
                    0 <= j < i ==> (#[trigger] profiles[j]).ticker@ != ticker),
            None => forall|j: int|
                0 <= j < profiles.len() ==> (#[trigger] profiles[j]).ticker@ != ticker,
        },
    decreases profiles.len(),
{
    if profiles.len() > 0 {
        let rest = profiles.drop_first();
        if profiles.first().ticker@ == ticker {
            assert(profiles[0] == profiles.first());
        } else {
            law_first_profile(rest, ticker);
            match first_profile(rest, ticker) {
                Some(profile) => {
                    let i = choose|i: int|
                        0 <= i < rest.len() && #[trigger] rest[i] == profile && (forall|j: int|
                            0 <= j < i ==> (#[trigger] rest[j]).ticker@ != ticker);
                    assert(profiles[i + 1] == profile);
                    assert forall|j: int| 0 <= j < i + 1 implies (#[trigger] profiles[j]).ticker@
                        != ticker by {
                        if j > 0 {
                            assert(rest[j - 1] == profiles[j]);
                        }
                    }
                },
                None => {
                    assert forall|j: int|
                        0 <= j < profiles.len() implies (#[trigger] profiles[j]).ticker@
                        != ticker by {
                        if j > 0 {
                            assert(rest[j - 1] == profiles[j]);
                        }
                    }
                },
            }
        }
    }
}

/// A list of profiles never shows more than the first characters of one.
pub proof fn law_preview_is_short(markdown: Seq<char>)
    ensures
        text::prefix_of(markdown, PREVIEW_CHARS as int).len() <= PREVIEW_CHARS,
        text::prefix_of(markdown, PREVIEW_CHARS as int).is_prefix_of(markdown),
        markdown.len() <= PREVIEW_CHARS ==> text::prefix_of(markdown, PREVIEW_CHARS as int)
            == markdown,
{
}

/// Every thesis is shown under its own ticker: the record of theses in the digest has, for
/// each ticker that there is a thesis of, a member of that name whose text is the thesis kept
/// for that very ticker, and no other members; it is empty if there are no theses.
pub proof fn law_theses_are_shown_under_their_tickers(
    user_id: Seq<char>,
    prefs: DigestPrefs,
    holdings: Seq<Seq<char>>,
    profiles: Seq<BodyView>,
    ticker: Seq<char>,
    thesis: Seq<char>,
)
    ensures
        ({
            let members = context_of(user_id, prefs, holdings, profiles)->Record_0;
            &&& members[2].0 == "investment_theses"@
            &&& members[2].1 matches BodyView::Record(record) && {
                match prefs.investment_theses {
                    Some(pairs) => {
                        &&& record.len() == pairs@.len()
                        &&& record.contains((ticker, BodyView::Text(thesis))) <==> exists|i: int|
                            0 <= i < pairs@.len() && (#[trigger] pairs@[i]).0@ == ticker
                                && pairs@[i].1@ == thesis
                        &&& forall|i: int|
                            0 <= i < record.len() ==> (#[trigger] record[i]).1 is Text
                    },
                    None => record.len() == 0,
                }
            }
        }),
{
    let members = context_of(user_id, prefs, holdings, profiles)->Record_0;
    let record = members[2].1->Record_0;
    if let Some(pairs) = prefs.investment_theses {
        assert forall|i: int| 0 <= i < pairs@.len() implies #[trigger] record[i] == (
            pairs@[i].0@,
            BodyView::Text(pairs@[i].1@),
        ) by {}
        if record.contains((ticker, BodyView::Text(thesis))) {
            let i = choose|i: int|
                0 <= i < record.len() && record[i] == (ticker, BodyView::Text(thesis));
            assert(pairs@[i].0@ == ticker);
        }
        if exists|i: int|
            0 <= i < pairs@.len() && (#[trigger] pairs@[i]).0@ == ticker && pairs@[i].1@
                == thesis {
            let i = choose|i: int|
                0 <= i < pairs@.len() && (#[trigger] pairs@[i]).0@ == ticker && pairs@[i].1@
                    == thesis;
            assert(record[i] == (ticker, BodyView::Text(thesis)));
        }
    }
}

/// The digest shows the user who asks, on the public site, and of each thing that is kept for
/// that user the thing itself under its own name; what is not there is null, and a list has
/// its items in their order.
pub proof fn law_digest_shows_what_is_kept(
    user_id: Seq<char>,
    prefs: DigestPrefs,
    holdings: Seq<Seq<char>>,
    profiles: Seq<BodyView>,
)
    ensures
        context_of(user_id, prefs, holdings, profiles) matches BodyView::Record(members) && {
            &&& members.len() == 9
            &&& members[0] == (
                "actor"@,
                BodyView::Record(
                    seq![
                        ("channel"@, BodyView::Text("web"@)),
                        ("user_id"@, BodyView::Text(user_id)),
                    ],
                ),
            )
            &&& members[1].0 == "investment_global_style"@
            &&& prefs.investment_global_style matches Some(style) ==> members[1].1
                == BodyView::Text(style@)
            &&& prefs.investment_global_style is None ==> members[1].1 is Null
            &&& members[3] == (
                "global_digest_enabled"@,
                BodyView::Flag(prefs.global_digest_enabled),
            )
            &&& members[4] == (
                "global_digest_floor_macro_picks"@,
                BodyView::Count(prefs.global_digest_floor_macro_picks as nat),
            )
            &&& members[5].0 == "last_thesis_distilled_at"@
            &&& prefs.last_thesis_distilled_at matches Some(at) ==> members[5].1
                == BodyView::Text(at@)
            &&& prefs.last_thesis_distilled_at is None ==> members[5].1 is Null
            &&& members[6].0 == "thesis_distill_skipped"@
            &&& members[6].1 matches BodyView::List(items) && items.len()
                == prefs.thesis_distill_skipped@.len() && (forall|i: int|
                0 <= i < items.len() ==> #[trigger] items[i] == BodyView::Text(
                    prefs.thesis_distill_skipped@[i]@,
                ))
            &&& members[7].0 == "holdings"@
            &&& members[7].1 matches BodyView::List(items) && items.len() == holdings.len() && (
            forall|i: int|
                0 <= i < items.len() ==> #[trigger] items[i] == BodyView::Text(holdings[i]))
            &&& members[8] == ("profile_list"@, BodyView::List(profiles))
        },
{
}

/// What is held is what the portfolio holds, in its order; a portfolio that is missing or
/// cannot be read holds nothing.
pub proof fn law_holdings_are_those_of_the_portfolio(lookup: PortfolioLookup)
    ensures
        match lookup {
            PortfolioLookup::Found { holdings } => lookup.known_holdings().len()
                == holdings@.len() && (forall|i: int|
                0 <= i < holdings@.len() ==> #[trigger] lookup.known_holdings()[i]
                    == holdings@[i]@),
            _ => lookup.known_holdings().len() == 0,
        },
{
}

/// A list of profiles shows of each its directory, its tickers, its title, its start and its
/// size: the title is a part of the first line that stands behind its number signs and is
/// not surrounded by white space, the start is of at most two hundred characters and shorter
/// only if the profile is, and the size is that of the profile in UTF-8.
pub proof fn law_summary_shows_its_profile(
    dir_name: Seq<char>,
    markdown: Seq<char>,
    tickers: Seq<Seq<char>>,
)
    ensures
        summary_of(dir_name, markdown, tickers) matches BodyView::Record(members) && {
            &&& members.len() == 5
            &&& members[0] == ("dir"@, BodyView::Text(dir_name))
            &&& members[1].0 == "tickers"@
            &&& members[1].1 matches BodyView::List(items) && items.len() == tickers.len() && (
            forall|i: int|
                0 <= i < items.len() ==> #[trigger] items[i] == BodyView::Text(tickers[i]))
            &&& members[2] == (
                "title"@,
                BodyView::Text(
                    text::trimmed(text::unhashed(text::first_line_of(markdown))),
                ),
            )
            &&& members[3].0 == "preview"@
            &&& members[3].1 matches BodyView::Text(start) && start.is_prefix_of(markdown)
                && start.len() <= 200 && (start.len() == 200 || start == markdown)
            &&& members[4] == (
                "bytes"@,
                BodyView::Count(vstd::utf8::encode_utf8(markdown).len()),
            )
        },
{
}

/// A list of profiles shows an entry if and only if it is a directory with a name and a
/// profile that can be read, and shows that very profile; entries come in their order.
pub proof fn law_entries_with_a_profile_are_listed(
    entry: ProfileEntry,
    entries: Seq<ProfileEntry>,
)
    ensures
        entry_summary(entry) is Some <==> entry.is_dir && entry.dir_name is Some
            && entry.markdown is Some,
        entry_summary(entry) matches Some(summary) ==> summary == summary_of(
            entry.dir_name->0@,
            entry.markdown->0@,
            event::texts_of(entry.tickers@),
        ),
        event::read_off(
            entries.len(),
            |i: int| entry_summary(entries[i]),
            event::kept(entries.len(), |i: int| entry_summary(entries[i])),
        ),
{
    event::law_kept_is_in_order(entries.len(), |i: int| entry_summary(entries[i]));
}

/// The answer to a request for a ticker is a profile of that very ticker, with its directory
/// and its whole text; there is none if and only if no profile is of the ticker, and then the
/// answer names the ticker.
pub proof fn law_profile_is_the_one_asked_for(profiles: Seq<Profile>, ticker: Seq<char>)
    ensures
        match profile_answer(profiles, ticker) {
            Ok(body) => exists|i: int|
                0 <= i < profiles.len() && (#[trigger] profiles[i]).ticker@ == ticker && (forall|
                    j: int,
                |
                    0 <= j < i ==> (#[trigger] profiles[j]).ticker@ != ticker) && body
                    == BodyView::Record(
                    seq![
                        ("ticker"@, BodyView::Text(ticker)),
                        ("dir"@, BodyView::Text(profiles[i].dir_name@)),
                        ("markdown"@, BodyView::Text(profiles[i].markdown@)),
                    ],
                ),
            Err(refusal) => refusal.status == 404 && refusal.message == "未找到 ticker="@ + ticker
                + " 的画像;请通过 chat 触发 company_portrait skill 建档"@ && (forall|j: int|
                0 <= j < profiles.len() ==> (#[trigger] profiles[j]).ticker@ != ticker),
        },
{
    law_first_profile(profiles, ticker);
    if let Some(profile) = first_profile(profiles, ticker) {
        let i = choose|i: int|
            0 <= i < profiles.len() && #[trigger] profiles[i] == profile && profile.ticker@
                == ticker && (forall|j: int|
                0 <= j < i ==> (#[trigger] profiles[j]).ticker@ != ticker);
        assert(profiles[i].ticker@ == ticker);
    }
}

/// A ticker is taken as it is, and refused if and only if it is empty.
pub proof fn law_only_no_ticker_is_refused(ticker: Seq<char>)
    ensures
        ticker.len() > 0 ==> ticker_or_refusal(ticker) == Ok::<Seq<char>, RefusalView>(ticker),
        ticker.len() == 0 ==> (ticker_or_refusal(ticker) matches Err(refusal) && refusal.status
            == 400 && refusal.message == "ticker 不能为空"@),
{
}

/// A request to distill again is refused for each thing that goes wrong with its own status
/// and words, and goes on to the next stage if nothing does.
pub proof fn law_refresh_is_refused_for_what_went_wrong(input: RefreshInput)
    ensures
        match input {
            RefreshInput::Portfolio(PortfolioLookup::Found { holdings }) => if holdings@.len()
                == 0 {
                input.answer() matches Some(Err(refusal)) && refusal.status == 400
                    && refusal.message == "portfolio 持仓为空"@
            } else {
                input.answer() is None && input.next_stage() is FindModel
            },
            RefreshInput::Portfolio(PortfolioLookup::Missing) => input.answer() matches Some(
                Err(refusal),
            ) && refusal.status == 404 && refusal.message
                == "actor 没有 portfolio,无法蒸馏 thesis(请先建仓)"@,
            RefreshInput::Portfolio(PortfolioLookup::Failed { reason }) => input.answer() matches Some(
                Err(refusal),
            ) && refusal.status == 500 && refusal.message == "读 portfolio 失败: "@ + reason@,
            RefreshInput::Model { available } => if available {
                input.answer() is None && input.next_stage() is OpenPrefs
            } else {
                input.answer() matches Some(Err(refusal)) && refusal.status == 500
                    && refusal.message
                    == "thesis 蒸馏 LLM 不可用（请配置 llm.auxiliary 指向 Ollama，或配置可用的 llm.openrouter）"@
            },
            RefreshInput::Prefs { failure: None } => input.answer() is None
                && input.next_stage() is Distill,
            RefreshInput::Prefs { failure: Some(reason) } => input.answer() matches Some(
                Err(refusal),
            ) && refusal.status == 500 && refusal.message == "打开 prefs 目录失败: "@ + reason@,
            RefreshInput::Distilled(_) => input.answer() matches Some(Ok(_)),
            RefreshInput::NotDistilled { reason } => input.answer() matches Some(Err(refusal))
                && refusal.status == 500 && refusal.message == "蒸馏失败: "@ + reason@,
        },
        input.answer() is Some ==> input.next_stage() is Answered,
{
}

/// What can happen to a request is what its stage is about.
pub proof fn law_refresh_stages(input: RefreshInput)
    ensures
        input.possible_at(RefreshStage::LoadPortfolio) <==> input is Portfolio,
        input.possible_at(RefreshStage::FindModel) <==> input is Model,
        input.possible_at(RefreshStage::OpenPrefs) <==> input is Prefs,
        input is NotDistilled ==> input.possible_at(RefreshStage::Distill),
        input matches RefreshInput::Distilled(prefs) ==> (input.possible_at(RefreshStage::Distill)
            <==> prefs.well_formed()),
        input.possible_at(RefreshStage::Distill) ==> input is Distilled || input is NotDistilled,
        !input.possible_at(RefreshStage::Answered),
{
}

/// The answer to a request that was granted reports what was distilled: how many theses there
/// are, whether there is a style, which tickers were skipped, and when it was.
pub proof fn law_report_tells_what_was_distilled(prefs: DigestPrefs)
    ensures
        RefreshInput::Distilled(prefs).answer() matches Some(Ok(BodyView::Record(members))) && {
            &&& members.len() == 5
            &&& members[0] == ("ok"@, BodyView::Flag(true))
            &&& members[1].0 == "theses_count"@
            &&& prefs.investment_theses matches Some(pairs) ==> members[1].1 == BodyView::Count(
                pairs@.len(),
            )
            &&& prefs.investment_theses is None ==> members[1].1 == BodyView::Count(0)
            &&& members[2] == (
                "global_style_set"@,
                BodyView::Flag(prefs.investment_global_style is Some),
            )
            &&& members[3].0 == "skipped_tickers"@
            &&& members[3].1 matches BodyView::List(items) && items.len()
                == prefs.thesis_distill_skipped@.len() && (forall|i: int|
                0 <= i < items.len() ==> #[trigger] items[i] == BodyView::Text(
                    prefs.thesis_distill_skipped@[i]@,
                ))
            &&& members[4].0 == "last_distilled_at"@
            &&& prefs.last_thesis_distilled_at matches Some(at) ==> members[4].1
                == BodyView::Text(at@)
            &&& prefs.last_thesis_distilled_at is None ==> members[4].1 is Null
        },
        report_of(prefs) == RefreshInput::Distilled(prefs).answer()->0->Ok_0,
{
}

/// The preferences are valid if and only if no two theses are of the same ticker.
pub proof fn law_valid_preferences(prefs: DigestPrefs)
    ensures
        prefs.investment_theses is None ==> prefs.well_formed(),
        prefs.investment_theses matches Some(pairs) ==> (prefs.well_formed() <==> forall|
            i: int,
            j: int,
        |
            0 <= i < j < pairs@.len() ==> (#[trigger] pairs@[i]).0@ != (#[trigger] pairs@[j]).0@),
{
    if let Some(pairs) = prefs.investment_theses {
        let tickers = prefs.tickers();
        assert forall|i: int| 0 <= i < pairs@.len() implies #[trigger] tickers[i]
            == pairs@[i].0@ by {}
        if forall|i: int, j: int|
            0 <= i < j < pairs@.len() ==> (#[trigger] pairs@[i]).0@ != (#[trigger] pairs@[j]).0@ {
            assert forall|i: int, j: int|
                0 <= i < tickers.len() && 0 <= j < tickers.len() && i != j implies tickers[i]
                != tickers[j] by {
                if i < j {
                    assert(pairs@[i].0@ != pairs@[j].0@);
                } else {
                    assert(pairs@[j].0@ != pairs@[i].0@);
                }
            }
        }
        if prefs.well_formed() {
            assert forall|i: int, j: int| 0 <= i < j < pairs@.len() implies (
            #[trigger] pairs@[i]).0@ != (#[trigger] pairs@[j]).0@ by {
                assert(tickers[i] != tickers[j]);
            }
        }
    }
}

/// Answers and refusals say what they hold.
pub proof fn law_answers_say_what_they_hold(
    refusal: Refusal,
    body: Body,
    ticker: String,
)
    ensures
        refusal@.status == refusal.status,
        refusal@.message == refusal.message@,
        answer_view(Ok(body)) == Ok::<BodyView, RefusalView>(body@),
        answer_view(Err(refusal)) == Err::<BodyView, RefusalView>(refusal@),
        ticker_view(Ok(ticker)) == Ok::<Seq<char>, RefusalView>(ticker@),
        ticker_view(Err(refusal)) == Err::<Seq<char>, RefusalView>(refusal@),
{
}

}
