use honeclaw::body::Body;
use honeclaw::digest::accept_ticker;
use honeclaw::digest::actor_refusal;
use honeclaw::digest::digest_context;
use honeclaw::digest::find_profile;
use honeclaw::digest::list_profile_summaries;
use honeclaw::digest::prefs_refusal;
use honeclaw::digest::public_actor;
use honeclaw::digest::refresh_report;
use honeclaw::digest::requested_ticker;
use honeclaw::digest::DigestPrefs;
use honeclaw::digest::PortfolioLookup;
use honeclaw::digest::Profile;
use honeclaw::digest::ProfileEntry;
use honeclaw::digest::Refresh;
use honeclaw::digest::RefreshInput;
use honeclaw::digest::RefreshStage;
use honeclaw::digest::Refusal;

fn show_body(body: &Body) -> String {
    match body {
        Body::Null => "null".to_string(),
        Body::Flag(b) => format!("{b}"),
        Body::Count(n) => format!("{n}"),
        Body::Text(s) => format!("{s:?}"),
        Body::List(items) => {
            format!("[{}]", items.iter().map(show_body).collect::<Vec<String>>().join(","))
        }
        Body::Record(members) => format!(
            "{{{}}}",
            members
                .iter()
                .map(|(k, v)| format!("{k}:{}", show_body(v)))
                .collect::<Vec<String>>()
                .join(","),
        ),
    }
}

fn entry(dir: Option<&str>, is_dir: bool, md: Option<&str>) -> ProfileEntry {
    ProfileEntry {
        dir_name: dir.map(|s| s.to_string()),
        is_dir,
        markdown: md.map(|s| s.to_string()),
        tickers: vec!["AAPL".to_string()],
    }
}

fn prefs() -> DigestPrefs {
    DigestPrefs {
        investment_global_style: Some("value".to_string()),
        investment_theses: Some(vec![("AAPL".to_string(), "moat".to_string())]),
        global_digest_enabled: true,
        global_digest_floor_macro_picks: 2,
        last_thesis_distilled_at: None,
        thesis_distill_skipped: vec!["KO".to_string()],
    }
}

fn nothing() -> DigestPrefs {
    DigestPrefs {
        investment_global_style: None,
        investment_theses: None,
        global_digest_enabled: false,
        global_digest_floor_macro_picks: 0,
        last_thesis_distilled_at: Some("2026-04-26T00:00:00Z".to_string()),
        thesis_distill_skipped: vec![],
    }
}

fn found(holdings: &[&str]) -> PortfolioLookup {
    PortfolioLookup::Found { holdings: holdings.iter().map(|s| s.to_string()).collect() }
}

fn refusal(answer: Option<Result<Body, Refusal>>) -> (u16, String) {
    match answer {
        Some(Err(refusal)) => (refusal.status, refusal.message),
        _ => panic!("expected a refusal"),
    }
}

#[test]
fn profiles_are_summed_up() {
    let entries = vec![
        entry(Some("apple"), true, Some("## # Apple 苹果 \r\nbody")),
        entry(Some("file"), false, Some("# x")),
        entry(None, true, Some("# x")),
        entry(Some("empty"), true, None),
        entry(Some("blank"), true, Some("")),
    ];
    let summaries: Vec<String> = list_profile_summaries(&entries).iter().map(show_body).collect();
    assert_eq!(
        summaries,
        vec![
            r###"{dir:"apple",tickers:["AAPL"],title:"# Apple 苹果",preview:"## # Apple 苹果 \r\nbody",bytes:24}"###,
            r#"{dir:"blank",tickers:["AAPL"],title:"",preview:"",bytes:0}"#,
        ],
    );
}

#[test]
fn previews_stop_after_two_hundred_characters() {
    let md = "画".repeat(201);
    let summary = &list_profile_summaries(&vec![entry(Some("d"), true, Some(&md))])[0];
    match summary {
        Body::Record(members) => {
            assert_eq!(show_body(&members[3].1), format!("{:?}", "画".repeat(200)));
            assert_eq!(show_body(&members[4].1), "603");
        }
        _ => panic!("expected a record"),
    }
}

#[test]
fn tickers_are_trimmed_and_in_upper_case() {
    assert_eq!(requested_ticker(" brk.b\t").unwrap(), "BRK.B");
    assert_eq!(requested_ticker("straße").unwrap(), "STRASSE");
    assert_eq!(requested_ticker("0700.hk").unwrap(), "0700.HK");
    let refusal = requested_ticker(" \n").unwrap_err();
    assert_eq!((refusal.status, refusal.message.as_str()), (400, "ticker 不能为空"));
    assert_eq!(accept_ticker("x".to_string()).unwrap(), "x");
    assert_eq!(accept_ticker(String::new()).unwrap_err().status, 400);
}

#[test]
fn the_first_profile_of_the_ticker_is_shown() {
    let profile = |ticker: &str, dir: &str| Profile {
        ticker: ticker.to_string(),
        dir_name: dir.to_string(),
        markdown: "# m".to_string(),
    };
    let profiles = vec![profile("KO", "a"), profile("AAPL", "b"), profile("AAPL", "c")];
    assert_eq!(
        show_body(&find_profile(&profiles, "AAPL").unwrap()),
        r##"{ticker:"AAPL",dir:"b",markdown:"# m"}"##,
    );
    let refusal = find_profile(&profiles, "aapl").unwrap_err();
    assert_eq!(refusal.status, 404);
    assert_eq!(
        refusal.message,
        "未找到 ticker=aapl 的画像;请通过 chat 触发 company_portrait skill 建档",
    );
}

#[test]
fn the_digest_of_a_user_is_shown() {
    let context = digest_context("u1", &prefs(), &found(&["AAPL", "KO"]), vec![Body::Null]);
    assert_eq!(
        show_body(&context),
        concat_text(&[
            r#"{actor:{channel:"web",user_id:"u1"},investment_global_style:"value","#,
            r#"investment_theses:{AAPL:"moat"},global_digest_enabled:true,"#,
            r#"global_digest_floor_macro_picks:2,last_thesis_distilled_at:null,"#,
            r#"thesis_distill_skipped:["KO"],holdings:["AAPL","KO"],profile_list:[null]}"#,
        ]),
    );
    for lookup in [PortfolioLookup::Missing, PortfolioLookup::Failed { reason: "r".to_string() }] {
        let context = digest_context("u2", &nothing(), &lookup, vec![]);
        assert_eq!(
            show_body(&context),
            concat_text(&[
                r#"{actor:{channel:"web",user_id:"u2"},investment_global_style:null,"#,
                r#"investment_theses:{},global_digest_enabled:false,"#,
                r#"global_digest_floor_macro_picks:0,"#,
                r#"last_thesis_distilled_at:"2026-04-26T00:00:00Z","#,
                r#"thesis_distill_skipped:[],holdings:[],profile_list:[]}"#,
            ]),
        );
    }
}

fn concat_text(parts: &[&str]) -> String {
    parts.join("")
}

#[test]
fn a_refresh_goes_through_its_stages() {
    let mut refresh = Refresh::new();
    assert_eq!(refresh.stage, RefreshStage::LoadPortfolio);
    assert!(refresh.step(RefreshInput::Portfolio(found(&["AAPL"]))).is_none());
    assert_eq!(refresh.stage, RefreshStage::FindModel);
    assert_eq!(refresh.holdings, vec!["AAPL".to_string()]);
    assert!(refresh.step(RefreshInput::Model { available: true }).is_none());
    assert_eq!(refresh.stage, RefreshStage::OpenPrefs);
    assert!(refresh.step(RefreshInput::Prefs { failure: None }).is_none());
    assert_eq!(refresh.stage, RefreshStage::Distill);
    assert_eq!(refresh.holdings, vec!["AAPL".to_string()]);
    let answer = refresh.step(RefreshInput::Distilled(prefs())).unwrap().unwrap();
    assert_eq!(
        show_body(&answer),
        r#"{ok:true,theses_count:1,global_style_set:true,skipped_tickers:["KO"],last_distilled_at:null}"#,
    );
    assert_eq!(refresh.stage, RefreshStage::Answered);
}

#[test]
fn a_refresh_without_results_reports_none() {
    assert_eq!(
        show_body(&refresh_report(&nothing())),
        concat_text(&[
            r#"{ok:true,theses_count:0,global_style_set:false,skipped_tickers:[],"#,
            r#"last_distilled_at:"2026-04-26T00:00:00Z"}"#,
        ]),
    );
}

#[test]
fn a_refresh_is_refused_for_each_failure() {
    let at = |stage: RefreshStage| Refresh { stage, holdings: vec!["A".to_string()] };
    let mut refresh = Refresh::new();
    assert_eq!(
        refusal(refresh.step(RefreshInput::Portfolio(PortfolioLookup::Missing))),
        (404, "actor 没有 portfolio,无法蒸馏 thesis(请先建仓)".to_string()),
    );
    assert_eq!(refresh.stage, RefreshStage::Answered);
    assert_eq!(
        refusal(Refresh::new().step(RefreshInput::Portfolio(PortfolioLookup::Failed {
            reason: "io".to_string(),
        }))),
        (500, "读 portfolio 失败: io".to_string()),
    );
    assert_eq!(
        refusal(Refresh::new().step(RefreshInput::Portfolio(found(&[])))),
        (400, "portfolio 持仓为空".to_string()),
    );
    assert_eq!(
        refusal(at(RefreshStage::FindModel).step(RefreshInput::Model { available: false })),
        (
            500,
            "thesis 蒸馏 LLM 不可用（请配置 llm.auxiliary 指向 Ollama，或配置可用的 llm.openrouter）"
                .to_string(),
        ),
    );
    assert_eq!(
        refusal(at(RefreshStage::OpenPrefs).step(RefreshInput::Prefs {
            failure: Some("p".to_string()),
        })),
        (500, "打开 prefs 目录失败: p".to_string()),
    );
    assert_eq!(
        refusal(at(RefreshStage::Distill).step(RefreshInput::NotDistilled {
            reason: "d".to_string(),
        })),
        (500, "蒸馏失败: d".to_string()),
    );
}

#[test]
fn other_failures_are_told() {
    let refusal = actor_refusal("empty id");
    assert_eq!((refusal.status, refusal.message.as_str()), (500, "构造 actor 失败: empty id"));
    let refusal = prefs_refusal("denied");
    assert_eq!((refusal.status, refusal.message.as_str()), (500, "打开 prefs 失败: denied"));
}

#[test]
fn the_public_site_concerns_the_user_alone() {
    let request = public_actor(" u1");
    assert_eq!((request.channel.as_str(), request.user_id.as_str()), ("web", " u1"));
    assert_eq!(request.scope, None);
}

#[test]
fn no_ticker_has_two_theses() {
    let with = |tickers: &[&str]| DigestPrefs {
        investment_theses: Some(
            tickers.iter().map(|t| (t.to_string(), "thesis".to_string())).collect(),
        ),
        ..nothing()
    };
    assert!(nothing().is_well_formed());
    assert!(with(&[]).is_well_formed());
    assert!(with(&["A", "B", "a"]).is_well_formed());
    assert!(!with(&["A", "B", "A"]).is_well_formed());
    assert!(!with(&["A", "B", "B"]).is_well_formed());
    assert!(show_body(&refresh_report(&with(&["A", "B", "C"]))).contains("theses_count:3"));
}
