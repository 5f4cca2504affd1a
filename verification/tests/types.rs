use ai_reader::types::{
    BookContentState, BookId, Cfi, DomPath, GutenbergId, HighlightId, MessageId, MessageRole,
    SettingKey, ThreadId, TypeValidationError, Url,
};

#[test]
fn test_id_type_safety() {
    let book_id = BookId::new(1);
    let gutenberg_id = GutenbergId::new(1);

    assert_eq!(book_id.get(), 1);
    assert_eq!(gutenberg_id.get(), 1);
    assert_ne!(book_id, BookId::new(2));
}

#[test]
fn test_message_role_parsing() {
    assert_eq!("user".parse::<MessageRole>().unwrap(), MessageRole::User);
    assert_eq!(
        "assistant".parse::<MessageRole>().unwrap(),
        MessageRole::Assistant
    );
    assert_eq!(
        "system".parse::<MessageRole>().unwrap(),
        MessageRole::System
    );
    assert!("invalid".parse::<MessageRole>().is_err());
}

#[test]
fn test_cfi_validation() {
    assert!(Cfi::new("epubcfi(/6/4[chap01ref]!/4/2)".to_string()).is_ok());
    assert!(Cfi::new("invalid".to_string()).is_err());
    assert!(Cfi::new("".to_string()).is_err());
}

#[test]
fn test_url_validation() {
    assert!(Url::new("https://example.com/book.mobi".to_string()).is_ok());
    assert!(Url::new("http://example.com".to_string()).is_ok());
    assert!(Url::new("ftp://example.com".to_string()).is_err());
    assert!(Url::new("".to_string()).is_err());
}

#[test]
fn test_setting_key_parsing() {
    assert_eq!(
        "openai_api_key".parse::<SettingKey>().unwrap(),
        SettingKey::OpenaiApiKey
    );
    assert!("invalid_key".parse::<SettingKey>().is_err());
}

#[test]
fn test_book_content_state() {
    let ready = BookContentState::HtmlReady {
        html: "<html>test</html>".to_string(),
        first_image_index: Some(1),
    };

    assert!(ready.has_html_ready());
    assert!(!ready.needs_processing());
    assert_eq!(ready.html(), Some("<html>test</html>"));

    let needs_extraction = BookContentState::NeedsExtraction {
        mobi_data: vec![1, 2, 3],
    };

    assert!(!needs_extraction.has_html_ready());
    assert!(needs_extraction.needs_processing());
    assert_eq!(needs_extraction.html(), None);
    assert_eq!(needs_extraction.mobi_data(), Some(&[1u8, 2, 3][..]));
}

#[test]
fn ids_keep_their_value() {
    assert_eq!(HighlightId::new(-7).get(), -7);
    assert_eq!(ThreadId::new(i64::MAX).get(), i64::MAX);
    assert_eq!(MessageId::new(0).get(), 0);
    assert_eq!(ThreadId::new(3), ThreadId::new(3));
}

#[test]
fn role_names_round_trip() {
    for role in [MessageRole::User, MessageRole::Assistant, MessageRole::System] {
        assert_eq!(MessageRole::parse(role.as_str()).unwrap(), role);
    }
    assert_eq!(MessageRole::User.as_str(), "user");
    assert_eq!(MessageRole::Assistant.as_str(), "assistant");
    assert_eq!(MessageRole::System.as_str(), "system");
}

#[test]
fn role_parsing_is_exact() {
    assert!(MessageRole::parse("User").is_err());
    assert!(MessageRole::parse(" user").is_err());
    assert!(MessageRole::parse("").is_err());
    match MessageRole::parse("robot") {
        Err(TypeValidationError::InvalidRole(name)) => assert_eq!(name, "robot"),
        other => panic!("unexpected: {:?}", other),
    }
}

#[test]
fn setting_names_round_trip() {
    let all = SettingKey::all();
    assert_eq!(
        all,
        vec![
            SettingKey::OpenaiApiKey,
            SettingKey::PocketVoiceId,
            SettingKey::DefaultModel,
            SettingKey::DefaultVoice
        ]
    );
    for key in all {
        assert_eq!(SettingKey::parse(key.as_str()).unwrap(), key);
    }
    assert_eq!(SettingKey::PocketVoiceId.as_str(), "pocket_voice_id");
    assert_eq!(SettingKey::DefaultModel.as_str(), "default_model");
    assert_eq!(SettingKey::DefaultVoice.as_str(), "default_voice");
    match SettingKey::parse("default_voices") {
        Err(TypeValidationError::InvalidSettingKey(name)) => assert_eq!(name, "default_voices"),
        other => panic!("unexpected: {:?}", other),
    }
}

#[test]
fn cfi_errors_tell_empty_from_malformed() {
    assert!(matches!(
        Cfi::new(String::new()),
        Err(TypeValidationError::EmptyCfi)
    ));
    match Cfi::new("epubcfi".to_string()) {
        Err(TypeValidationError::InvalidCfiFormat(text)) => assert_eq!(text, "epubcfi"),
        other => panic!("unexpected: {:?}", other),
    }
    let cfi = Cfi::new("epubcfi(".to_string()).unwrap();
    assert_eq!(cfi.as_str(), "epubcfi(");
    assert_eq!(cfi.into_string(), "epubcfi(");
    assert_eq!(Cfi::new_unchecked("anything".to_string()).as_str(), "anything");
}

#[test]
fn dom_path_refuses_only_the_empty_text() {
    assert!(matches!(
        DomPath::new(String::new()),
        Err(TypeValidationError::EmptyDomPath)
    ));
    let path = DomPath::new("/html/body/p[3]".to_string()).unwrap();
    assert_eq!(path.as_str(), "/html/body/p[3]");
    assert_eq!(path.into_string(), "/html/body/p[3]");
    assert_eq!(DomPath::new_unchecked(String::new()).as_str(), "");
}

#[test]
fn url_errors_tell_empty_from_wrong_scheme() {
    assert!(matches!(
        Url::new(String::new()),
        Err(TypeValidationError::EmptyUrl)
    ));
    match Url::new("HTTP://example.com".to_string()) {
        Err(TypeValidationError::InvalidUrlScheme(text)) => assert_eq!(text, "HTTP://example.com"),
        other => panic!("unexpected: {:?}", other),
    }
    assert!(Url::new("http:/".to_string()).is_err());
    let url = Url::new("https://".to_string()).unwrap();
    assert_eq!(url.as_str(), "https://");
    assert_eq!(url.into_string(), "https://");
    assert_eq!(Url::new_unchecked("ftp://x".to_string()).as_str(), "ftp://x");
}

#[test]
fn refusal_messages() {
    assert_eq!(
        TypeValidationError::InvalidRole("robot".to_string()).message(),
        "Invalid message role: robot (expected: user, assistant, or system)"
    );
    assert_eq!(TypeValidationError::EmptyCfi.message(), "Empty CFI");
    assert_eq!(
        TypeValidationError::InvalidCfiFormat("x".to_string()).message(),
        "Invalid CFI format: x (must start with 'epubcfi(')"
    );
    assert_eq!(TypeValidationError::EmptyDomPath.message(), "Empty DOM path");
    assert_eq!(TypeValidationError::EmptyUrl.message(), "Empty URL");
    assert_eq!(
        TypeValidationError::InvalidUrlScheme("ftp://x".to_string()).message(),
        "Invalid URL scheme: ftp://x (must start with http:// or https://)"
    );
    assert_eq!(
        TypeValidationError::InvalidSettingKey("k".to_string()).message(),
        "Invalid setting key: k"
    );
}

#[test]
fn content_state_of_corrupt_and_missing_books() {
    let corrupt = BookContentState::NeedsRegeneration {
        mobi_data: vec![9, 8],
        corrupt_html: "x".to_string(),
    };
    assert!(!corrupt.has_html_ready());
    assert!(corrupt.needs_processing());
    assert_eq!(corrupt.html(), None);
    assert_eq!(corrupt.mobi_data(), Some(&[9u8, 8][..]));

    let missing = BookContentState::MissingContent;
    assert!(!missing.has_html_ready());
    assert!(!missing.needs_processing());
    assert_eq!(missing.html(), None);
    assert_eq!(missing.mobi_data(), None);

    let ready = BookContentState::HtmlReady {
        html: String::new(),
        first_image_index: None,
    };
    assert_eq!(ready.mobi_data(), None);
}
