use ai_reader::cached::needs_regeneration;
use ai_reader::openai::{
    collect_chat_result, insert_model, key_status, offered_model, resolve_api_key, select_models,
    ContentPart, KeyStatus, ModelInfo, ResponseItem,
};
use ai_reader::citations::{max_citation_index, max_of_keys, parse_i32};
use ai_reader::download::blocked_message;
use ai_reader::sidecar::{SidecarAction, SidecarEvent, SidecarStatus};

fn model(id: &str, created: Option<i64>) -> ModelInfo {
    ModelInfo { id: id.to_string(), created }
}

fn text(s: &str) -> ContentPart {
    ContentPart::OutputText { text: s.to_string() }
}

#[test]
fn numbers_written_in_decimal() {
    assert_eq!(parse_i32("0"), Some(0));
    assert_eq!(parse_i32("42"), Some(42));
    assert_eq!(parse_i32("+42"), Some(42));
    assert_eq!(parse_i32("-42"), Some(-42));
    assert_eq!(parse_i32("-0"), Some(0));
    assert_eq!(parse_i32("007"), Some(7));
    assert_eq!(parse_i32("2147483647"), Some(i32::MAX));
    assert_eq!(parse_i32("-2147483648"), Some(i32::MIN));
    assert_eq!(parse_i32("0000000000002147483647"), Some(i32::MAX));
}

#[test]
fn texts_that_write_no_number() {
    assert_eq!(parse_i32(""), None);
    assert_eq!(parse_i32("-"), None);
    assert_eq!(parse_i32("+"), None);
    assert_eq!(parse_i32("+-1"), None);
    assert_eq!(parse_i32("--1"), None);
    assert_eq!(parse_i32("1-"), None);
    assert_eq!(parse_i32(" 1"), None);
    assert_eq!(parse_i32("1 "), None);
    assert_eq!(parse_i32("1.0"), None);
    assert_eq!(parse_i32("12a"), None);
    assert_eq!(parse_i32("\u{663}"), None);
    assert_eq!(parse_i32("2147483648"), None);
    assert_eq!(parse_i32("-2147483649"), None);
    assert_eq!(parse_i32("99999999999999999999999999"), None);
    assert_eq!(parse_i32("99999999999999999999999999x"), None);
}

#[test]
fn largest_key_of_a_context_map() {
    let keys = vec!["3".to_string(), "x".to_string(), "12".to_string(), "-5".to_string()];
    assert_eq!(max_of_keys(0, &keys), 12);
    assert_eq!(max_of_keys(40, &keys), 40);
    assert_eq!(max_of_keys(-9, &Vec::new()), -9);
}

#[test]
fn largest_citation_number_of_a_thread() {
    assert_eq!(max_citation_index(&Vec::new()), 0);
    let maps = vec![
        "{\"1\": \"epubcfi(/6/2)\", \"2\": \"epubcfi(/6/4)\"}".to_string(),
        "not json".to_string(),
        "[7, 8, 9]".to_string(),
        "{\"5\": {}, \"note\": 99, \"04\": 1}".to_string(),
        "{}".to_string(),
        "\"17\"".to_string(),
    ];
    assert_eq!(max_citation_index(&maps), 5);
    assert_eq!(max_citation_index(&vec!["{\"-3\": 1}".to_string()]), 0);
    assert_eq!(max_citation_index(&vec!["{\"2147483648\": 1, \"9\": 2}".to_string()]), 9);
}

#[test]
fn where_a_key_is_held() {
    assert_eq!(
        key_status(Some("sk-1"), None),
        KeyStatus { has_env_key: false, has_saved_key: true }
    );
    assert_eq!(
        key_status(Some("  \n"), Some(" sk-2 ")),
        KeyStatus { has_env_key: true, has_saved_key: false }
    );
    assert_eq!(key_status(None, None), KeyStatus { has_env_key: false, has_saved_key: false });
    assert_eq!(key_status(Some(""), Some("")), KeyStatus { has_env_key: false, has_saved_key: false });
}

#[test]
fn saved_key_comes_before_the_environment() {
    assert_eq!(resolve_api_key(Some(" sk-saved\n"), Some("sk-env")), Some("sk-saved".to_string()));
    assert_eq!(resolve_api_key(Some("   "), Some(" sk-env ")), Some("sk-env".to_string()));
    assert_eq!(resolve_api_key(None, Some("sk-env")), Some("sk-env".to_string()));
    assert_eq!(resolve_api_key(Some(""), None), None);
    assert_eq!(resolve_api_key(None, Some("\t")), None);
    assert_eq!(resolve_api_key(None, None), None);
}

#[test]
fn answer_is_made_of_the_message_texts() {
    let items = vec![
        ResponseItem::Reasoning { summary: Some("first thought".to_string()) },
        ResponseItem::Message { content: vec![text("Hello"), ContentPart::Unknown, text(", ")] },
        ResponseItem::Unknown,
        ResponseItem::Reasoning { summary: Some("second thought".to_string()) },
        ResponseItem::Message { content: vec![] },
        ResponseItem::Message { content: vec![text("world.")] },
    ];
    let result = collect_chat_result(&items);
    assert_eq!(result.content, "Hello, world.");
    assert_eq!(result.reasoning_summary, Some("second thought".to_string()));
}

#[test]
fn last_reasoning_item_decides_the_summary() {
    let items = vec![
        ResponseItem::Reasoning { summary: Some("thought".to_string()) },
        ResponseItem::Reasoning { summary: None },
        ResponseItem::Message { content: vec![text("x")] },
    ];
    let result = collect_chat_result(&items);
    assert_eq!(result.content, "x");
    assert_eq!(result.reasoning_summary, None);
    let empty = collect_chat_result(&Vec::new());
    assert_eq!(empty.content, "");
    assert_eq!(empty.reasoning_summary, None);
}

#[test]
fn which_models_are_offered() {
    let now: i64 = 1_700_000_000;
    let cutoff = now - 46_656_000;
    assert!(offered_model(&model("gpt-4o", Some(cutoff)), now));
    assert!(!offered_model(&model("gpt-4o", Some(cutoff - 1)), now));
    assert!(offered_model(&model("gpt-4o", None), now));
    assert!(offered_model(&model("gpt-5-mini", Some(0)), now));
    assert!(!offered_model(&model("gpt-3.5-turbo", Some(now)), now));
    assert!(!offered_model(&model("gpt-3.5", None), now));
    assert!(!offered_model(&model("o3-mini", Some(now)), now));
    assert!(!offered_model(&model("GPT-4", Some(now)), now));
    assert!(!offered_model(&model("gpt", Some(now)), now));
    assert!(offered_model(&model("gpt-", Some(now)), now));
    assert!(offered_model(&model("gpt-4", Some(i64::MIN)), i64::MIN));
    assert!(!offered_model(&model("gpt-4", Some(i64::MIN)), i64::MAX));
}

#[test]
fn models_are_listed_newest_first() {
    let now: i64 = 1_700_000_000;
    let models = vec![
        model("gpt-4-old", Some(now - 50_000_000)),
        model("gpt-4a", Some(now - 100)),
        model("gpt-unknown-age", None),
        model("gpt-4b", Some(now - 100)),
        model("whisper-1", Some(now)),
        model("gpt-5", Some(5)),
        model("gpt-4.1", Some(now - 10)),
        model("gpt-3.5-turbo", Some(now)),
        model("gpt-4c", Some(now - 100)),
    ];
    assert_eq!(
        select_models(&models, now),
        vec!["gpt-4.1", "gpt-4a", "gpt-4b", "gpt-4c", "gpt-5", "gpt-unknown-age"]
    );
    assert_eq!(select_models(&Vec::new(), now), Vec::<String>::new());
}

#[test]
fn model_is_put_in_behind_its_equals() {
    let mut sorted = vec![model("a", Some(9)), model("b", Some(5)), model("c", Some(5))];
    insert_model(&mut sorted, model("d", Some(5)));
    insert_model(&mut sorted, model("e", Some(10)));
    insert_model(&mut sorted, model("f", None));
    insert_model(&mut sorted, model("g", Some(-1)));
    let ids: Vec<&str> = sorted.iter().map(|m| m.id.as_str()).collect();
    assert_eq!(ids, vec!["e", "a", "b", "c", "d", "f", "g"]);
}

#[test]
fn helper_process_is_started_once() {
    let status = SidecarStatus::new();
    assert_eq!(status, SidecarStatus::Stopped);
    let (status, action) = status.step(SidecarEvent::StartRequested);
    assert_eq!((status, action), (SidecarStatus::Starting, SidecarAction::Spawn));
    assert_eq!(
        status.step(SidecarEvent::StartRequested),
        (SidecarStatus::Starting, SidecarAction::Nothing)
    );
    let (status, action) = status.step(SidecarEvent::Spawned);
    assert_eq!((status, action), (SidecarStatus::Running, SidecarAction::Nothing));
    assert_eq!(
        status.step(SidecarEvent::StartRequested),
        (SidecarStatus::Running, SidecarAction::Nothing)
    );
    assert_eq!(
        status.step(SidecarEvent::StopRequested),
        (SidecarStatus::Stopped, SidecarAction::Kill)
    );
}

#[test]
fn helper_process_that_fails_to_start() {
    assert_eq!(
        SidecarStatus::Starting.step(SidecarEvent::ProgramMissing),
        (SidecarStatus::Errored, SidecarAction::Nothing)
    );
    assert_eq!(
        SidecarStatus::Starting.step(SidecarEvent::SpawnFailed),
        (SidecarStatus::Starting, SidecarAction::Nothing)
    );
    assert_eq!(
        SidecarStatus::Errored.step(SidecarEvent::StartRequested),
        (SidecarStatus::Starting, SidecarAction::Spawn)
    );
    assert_eq!(
        SidecarStatus::Errored.step(SidecarEvent::StopRequested),
        (SidecarStatus::Stopped, SidecarAction::Kill)
    );
}

#[test]
fn stored_html_that_has_to_be_made_again() {
    assert!(needs_regeneration(""));
    assert!(needs_regeneration("<html>don\u{e2}\u{20ac}\u{2122}t</html>"));
    assert!(needs_regeneration(&format!("<html>{}</html>", "\u{fffd}".repeat(17))));
    assert!(needs_regeneration("<html>\u{0}</html>"));
    assert!(needs_regeneration("<html>\u{b}</html>"));
    assert!(!needs_regeneration(&format!("<html>{}</html>", "\u{fffd}".repeat(16))));
    assert!(!needs_regeneration("<html>\n\t\r caf\u{e9} \u{2019}</html>"));
    assert!(!needs_regeneration(" "));
}

#[test]
fn message_for_a_blocked_request() {
    assert_eq!(
        blocked_message("429 Too Many Requests"),
        "Project Gutenberg blocked/rate-limited this request (HTTP 429 Too Many Requests). Try pausing/resuming, or download fewer books / set up a local mirror per https://www.gutenberg.org/policy/robot"
    );
}
