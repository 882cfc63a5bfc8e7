use rssr::api::{entry_to_dto, source_to_dto, to_sqlite_url};
use rssr::enrich::{
    article_text_from_rendering, build_summary_input, clean_article_text, fallback_entry_text,
    hash_llm_input, hex_string, plan_summary, summary_step, trimmed_lines, SummaryStep,
    ARTICLE_WIDTH,
};
use rssr::llm::LlmConfig;
use rssr::services::AppServices;
use rssr::storage::models::{EntryRecord, EntryTitleRecord, SourceRecord};
use rssr::titles::{
    translation_gate, TitleTranslation, TranslationAction, TranslationEvent,
};

fn entry(summary: Option<&str>, content: Option<&str>) -> EntryRecord {
    EntryRecord {
        id: 1,
        source_id: 1,
        source_title: "source".to_string(),
        guid: None,
        link: "https://example.com/post".to_string(),
        title: "Post title".to_string(),
        translated_title: None,
        summary: summary.map(|s| s.to_string()),
        content: content.map(|s| s.to_string()),
        published_at: None,
        is_read: 0,
        is_starred: 0,
        created_at: "2026-02-24T00:00:00Z".to_string(),
    }
}

fn render_html(html: &str) -> Option<String> {
    html2text::config::plain()
        .string_from_read(html.as_bytes(), ARTICLE_WIDTH)
        .ok()
}

fn title(id: i64, title: &str) -> EntryTitleRecord {
    EntryTitleRecord { id, title: title.to_string() }
}

#[test]
fn llm_input_hash_is_deterministic() {
    let a = hash_llm_input("summary", "deepseek-chat", "hello");
    let b = hash_llm_input("summary", "deepseek-chat", "hello");
    assert_eq!(a, b);
}

#[test]
fn fallback_entry_text_prefers_summary_and_content() {
    let entry = EntryRecord {
        id: 1,
        source_id: 1,
        source_title: "source".to_string(),
        guid: None,
        link: "https://example.com/post".to_string(),
        title: "Post title".to_string(),
        translated_title: None,
        summary: Some("summary".to_string()),
        content: Some("content".to_string()),
        published_at: None,
        is_read: 0,
        is_starred: 0,
        created_at: "2026-02-24T00:00:00Z".to_string(),
    };
    assert_eq!(fallback_entry_text(&entry), "summary\n\ncontent");
}

#[test]
fn build_summary_input_is_capped() {
    let entry = EntryRecord {
        id: 1,
        source_id: 1,
        source_title: "source".to_string(),
        guid: None,
        link: "https://example.com/post".to_string(),
        title: "Post title".to_string(),
        translated_title: None,
        summary: None,
        content: None,
        published_at: None,
        is_read: 0,
        is_starred: 0,
        created_at: "2026-02-24T00:00:00Z".to_string(),
    };
    let huge = "a".repeat(13000);
    let input = build_summary_input(&entry, &huge);
    assert!(input.starts_with("Title: Post title"));
    assert!(input.contains("Article Text:"));
    assert!(input.len() < 12200);
}

#[test]
fn llm_input_hash_is_the_sha256_of_the_joined_inputs() {
    assert_eq!(
        hash_llm_input("summary", "deepseek-chat", "hello"),
        "f1fe8e5a2c6db2933485621d03602ead0f03498c9f15e355d9cf60e4ceed5943"
    );
    assert_eq!(
        hash_llm_input("title_translate_zh", "m", "Hello world"),
        "a00453572bfbf9bf8492dd4d85cdacd763095ec845c303b4bc3e01a1af8c1bd0"
    );
    assert_eq!(
        hash_llm_input("", "", ""),
        "d00d9be38948fb145335e663ae2d01c00ac71d268566521ce4abfc4ff1038e11"
    );
    assert_eq!(hash_llm_input("summary", "m", &"x".repeat(5000)).chars().count(), 64);
}

#[test]
fn llm_input_hash_changes_with_each_input() {
    let base = hash_llm_input("summary", "deepseek-chat", "hello");
    assert_ne!(base, hash_llm_input("translate:zh", "deepseek-chat", "hello"));
    assert_ne!(base, hash_llm_input("summary", "other-model", "hello"));
    assert_ne!(base, hash_llm_input("summary", "deepseek-chat", "hello!"));
}

#[test]
fn hex_is_lower_case_with_two_digits_a_byte() {
    assert_eq!(hex_string(&vec![0x00, 0x0f, 0xa5, 0xff]), "000fa5ff");
    assert_eq!(hex_string(&vec![]), "");
}

#[test]
fn fallback_text_uses_what_the_entry_has() {
    assert_eq!(fallback_entry_text(&entry(Some("s"), None)), "s");
    assert_eq!(fallback_entry_text(&entry(None, Some("c"))), "c");
    assert_eq!(fallback_entry_text(&entry(None, None)), "Post title");
}

#[test]
fn summary_input_keeps_the_first_12000_characters() {
    let short = build_summary_input(&entry(None, None), "body");
    assert_eq!(short, "Title: Post title\nLink: https://example.com/post\n\nArticle Text:\nbody");
    let exact = "é".repeat(12000);
    let input = build_summary_input(&entry(None, None), &exact);
    assert!(input.ends_with(&exact));
    let long = format!("{}x", exact);
    let input = build_summary_input(&entry(None, None), &long);
    assert!(input.ends_with(&exact));
    assert_eq!(input.chars().count(), short.chars().count() - 4 + 12000);
}

#[test]
fn article_text_keeps_trimmed_lines_that_are_not_blank() {
    assert_eq!(clean_article_text("  one \r\n\n\t\n two\n"), "one\ntwo");
    assert_eq!(clean_article_text(""), "");
    assert_eq!(trimmed_lines("a\n \nb"), vec!["a".to_string(), "b".to_string()]);
    let many: String = (0..1300).map(|i| format!("line {}\n", i)).collect();
    let cleaned = clean_article_text(&many);
    assert_eq!(cleaned.lines().count(), 1200);
    assert!(cleaned.ends_with("line 1199"));
    assert!(cleaned.starts_with("line 0\nline 1\n"));
}

#[test]
fn page_is_rendered_to_plain_text() {
    let html = "<html><body><h1>Heading</h1><p>First paragraph.</p><p>Second <b>bold</b> one.</p></body></html>";
    let text = match article_text_from_rendering(render_html(html)) {
        Ok(text) => text,
        Err(message) => panic!("{}", message),
    };
    assert!(!text.contains('<'));
    assert!(text.contains("Heading"));
    assert!(text.contains("First paragraph."));
    assert!(text.lines().all(|line| !line.trim().is_empty() && line.trim() == line));
    assert_eq!(
        article_text_from_rendering(render_html("<p>   </p>")),
        Err("empty article text".to_string())
    );
    assert_eq!(
        article_text_from_rendering(render_html("")),
        Err("empty article text".to_string())
    );
    assert_eq!(
        article_text_from_rendering(None),
        Err("failed to convert html to text".to_string())
    );
    assert_eq!(
        article_text_from_rendering(Some("  one  \n\n two ".to_string())),
        Ok("one\ntwo".to_string())
    );
}

#[test]
fn summary_is_planned_from_the_article_or_the_entry() {
    let stored = entry(Some("summary"), Some("content"));
    let from_article = plan_summary(&stored, Ok("article".to_string()), "deepseek-chat");
    assert_eq!(
        from_article.input,
        "Title: Post title\nLink: https://example.com/post\n\nArticle Text:\narticle"
    );
    assert_eq!(
        from_article.hash,
        hash_llm_input("summary", "deepseek-chat", &from_article.input)
    );
    let from_entry = plan_summary(&stored, Err("fetch webpage status: 404".to_string()), "m");
    assert!(from_entry.input.ends_with("Article Text:\nsummary\n\ncontent"));

    match summary_step(&from_article, Some("cached".to_string())) {
        SummaryStep::Reuse(text) => assert_eq!(text, "cached"),
        other => panic!("the cache held the summary: {:?}", other),
    }
    match summary_step(&from_article, None) {
        SummaryStep::Generate { system_prompt, user_prompt } => {
            assert_eq!(system_prompt, "You summarize technical articles in concise Chinese.");
            assert_eq!(
                user_prompt,
                format!("请总结下面这篇文章，输出 5 条以内要点：\n\n{}", from_article.input)
            );
        }
        other => panic!("the cache was empty: {:?}", other),
    }
}

#[test]
fn cached_title_is_reused_without_a_call() {
    let (mut run, first) = TitleTranslation::begin(
        "deepseek-chat".to_string(),
        vec![title(1, "   "), title(2, " Hello world "), title(3, "")],
    );
    match first {
        TranslationAction::LookupCache { task_type, model, hash } => {
            assert_eq!(task_type, "title_translate_zh");
            assert_eq!(model, "deepseek-chat");
            assert_eq!(hash, hash_llm_input("title_translate_zh", "deepseek-chat", "Hello world"));
        }
        other => panic!("the second title is to be translated: {:?}", other),
    }
    match run.step(TranslationEvent::CacheLooked(Some(" 你好，世界\n".to_string()))) {
        TranslationAction::StoreTitle { entry_id, text } => {
            assert_eq!(entry_id, 2);
            assert_eq!(text, "你好，世界");
        }
        other => panic!("the cache held the title: {:?}", other),
    }
    match run.step(TranslationEvent::TitleStored) {
        TranslationAction::Finish(Ok(updated)) => assert_eq!(updated, 1),
        other => panic!("no title is left: {:?}", other),
    }
}

#[test]
fn missing_title_is_generated_cached_and_stored() {
    let (mut run, _) =
        TitleTranslation::begin("m".to_string(), vec![title(5, "First"), title(6, "Second")]);
    match run.step(TranslationEvent::CacheLooked(None)) {
        TranslationAction::Generate { system_prompt, user_prompt } => {
            assert_eq!(system_prompt, "You translate English article titles into concise Chinese.");
            assert_eq!(
                user_prompt,
                "Translate this article title into Chinese and keep it concise. Output only Chinese title.\n\nFirst"
            );
        }
        other => panic!("the cache was empty: {:?}", other),
    }
    match run.step(TranslationEvent::Generated(Ok(" 第一 ".to_string()))) {
        TranslationAction::StoreCache { task_type, model, hash, text } => {
            assert_eq!(task_type, "title_translate_zh");
            assert_eq!(model, "m");
            assert_eq!(hash, hash_llm_input("title_translate_zh", "m", "First"));
            assert_eq!(text, " 第一 ");
        }
        other => panic!("the translation goes to the cache: {:?}", other),
    }
    match run.step(TranslationEvent::CacheStored) {
        TranslationAction::StoreTitle { entry_id, text } => {
            assert_eq!(entry_id, 5);
            assert_eq!(text, "第一");
        }
        other => panic!("the title is to be stored: {:?}", other),
    }
    assert!(matches!(
        run.step(TranslationEvent::TitleStored),
        TranslationAction::LookupCache { .. }
    ));
    match run.step(TranslationEvent::CacheLooked(None)) {
        TranslationAction::Generate { user_prompt, .. } => assert!(user_prompt.ends_with("Second")),
        other => panic!("the cache was empty: {:?}", other),
    }
    match run.step(TranslationEvent::Generated(Err("quota exceeded".to_string()))) {
        TranslationAction::Finish(Err(reason)) => assert_eq!(reason, "quota exceeded"),
        other => panic!("the service failed: {:?}", other),
    }
    assert!(matches!(
        run.step(TranslationEvent::TitleStored),
        TranslationAction::Finish(Err(_))
    ));
}

#[test]
fn translation_without_titles_or_configuration_does_nothing() {
    let (_, action) = TitleTranslation::begin("m".to_string(), vec![]);
    assert!(matches!(action, TranslationAction::Finish(Ok(0))));
    let (mut run, action) = TitleTranslation::begin("m".to_string(), vec![title(1, " "), title(2, "")]);
    assert!(matches!(action, TranslationAction::Finish(Ok(0))));
    assert!(matches!(run.step(TranslationEvent::CacheStored), TranslationAction::Finish(Err(_))));
    let (mut run, _) = TitleTranslation::begin("m".to_string(), vec![title(1, "T")]);
    match run.step(TranslationEvent::StoreFailed("disk full".to_string())) {
        TranslationAction::Finish(Err(reason)) => assert_eq!(reason, "disk full"),
        other => panic!("the store failed: {:?}", other),
    }
    let (mut run, _) = TitleTranslation::begin("m".to_string(), vec![title(1, "T")]);
    match run.step(TranslationEvent::Generated(Ok("x".to_string()))) {
        TranslationAction::Finish(Err(reason)) => {
            assert_eq!(reason, "event does not fit the state of the translation")
        }
        other => panic!("nothing was asked of the service: {:?}", other),
    }

    assert_eq!(translation_gate(&None), Ok(false));
    let config = LlmConfig {
        base_url: "https://h".to_string(),
        api_key: "k".to_string(),
        model: "m".to_string(),
        timeout_secs: 30,
    };
    assert_eq!(translation_gate(&Some(config.clone())), Ok(true));
    let broken = LlmConfig { model: " ".to_string(), ..config };
    assert_eq!(
        translation_gate(&Some(broken)),
        Err("invalid llm config: model cannot be empty".to_string())
    );
}

#[test]
fn health_report_lists_every_service_by_name() {
    let report = AppServices::default().health_report();
    let expected: Vec<(String, String)> =
        ["feed", "importer", "llm", "storage", "subscription", "sync"]
            .iter()
            .map(|name| (name.to_string(), "ready".to_string()))
            .collect();
    assert_eq!(report, expected);
}

#[test]
fn rows_become_what_the_front_end_sees() {
    let source = SourceRecord {
        id: 9,
        title: "t".to_string(),
        site_url: Some("https://example.com".to_string()),
        feed_url: "https://example.com/feed".to_string(),
        category: None,
        is_active: 1,
        failure_count: 2,
        etag: Some("e".to_string()),
        last_modified: None,
        last_synced_at: Some("2026-02-24 01:00:00".to_string()),
        created_at: "c".to_string(),
        updated_at: "u".to_string(),
    };
    let mut inactive = source.clone();
    inactive.is_active = 2;
    let dto = source_to_dto(source);
    assert_eq!(dto.id, 9);
    assert!(dto.is_active);
    assert_eq!(dto.failure_count, 2);
    assert_eq!(dto.site_url.as_deref(), Some("https://example.com"));
    assert_eq!(dto.etag.as_deref(), Some("e"));
    assert_eq!(dto.last_synced_at.as_deref(), Some("2026-02-24 01:00:00"));
    assert_eq!(dto.updated_at, "u");
    assert!(!source_to_dto(inactive).is_active);

    let mut stored = entry(Some("s"), None);
    stored.is_read = 1;
    stored.translated_title = Some("标题".to_string());
    let dto = entry_to_dto(stored);
    assert!(dto.is_read);
    assert!(!dto.is_starred);
    assert_eq!(dto.title, "Post title");
    assert_eq!(dto.translated_title.as_deref(), Some("标题"));
    assert_eq!(dto.summary.as_deref(), Some("s"));
    assert_eq!(dto.link, "https://example.com/post");
}

#[test]
fn database_url_names_the_file_and_creates_it() {
    assert_eq!(to_sqlite_url("/data/app/rssr.db"), "sqlite:///data/app/rssr.db?mode=rwc");
}
