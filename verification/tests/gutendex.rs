use ai_reader::gutendex::{
    build_catalog_url, catalog_base_url, catalog_request_url, combine_search, fits_budget,
    request_pairs, sanitize_page_url, split_pairs, trim_text, GutendexError,
};

fn pair(name: &str, value: &str) -> (String, String) {
    (name.to_string(), value.to_string())
}

#[test]
fn test_catalog_base_urls() {
    // Greek Epic should include broader search
    let epic = catalog_base_url("greek-epic").unwrap();
    assert!(epic.contains("homer%20hesiod%20epic%20myth"));

    // Greek Tragedy should include major playwrights
    let tragedy = catalog_base_url("greek-tragedy").unwrap();
    assert!(tragedy.contains("aeschylus%20sophocles%20euripides%20tragedy"));

    // New categories
    assert!(catalog_base_url("gothic").is_some());
    assert!(catalog_base_url("philosophy").is_some());
}

#[test]
fn every_catalog_has_its_base_address() {
    assert_eq!(catalog_base_url("all"), Some("https://gutendex.com/books/"));
    assert_eq!(
        catalog_base_url("shakespeare"),
        Some("https://gutendex.com/books/?search=Shakespeare%2C%20William")
    );
    assert_eq!(
        catalog_base_url("greek-tragedy"),
        Some("https://gutendex.com/books/?search=aeschylus%20sophocles%20euripides%20tragedy")
    );
    assert_eq!(
        catalog_base_url("greek-epic"),
        Some("https://gutendex.com/books/?search=homer%20hesiod%20epic%20myth")
    );
    assert_eq!(
        catalog_base_url("roman-drama"),
        Some("https://gutendex.com/books/?search=roman%20drama")
    );
    assert_eq!(
        catalog_base_url("mythology"),
        Some("https://gutendex.com/books/?search=mythology")
    );
    assert_eq!(
        catalog_base_url("philosophy"),
        Some("https://gutendex.com/books/?search=philosophy")
    );
    assert_eq!(catalog_base_url("gothic"), Some("https://gutendex.com/books/?search=gothic"));
    assert_eq!(
        catalog_base_url("science-fiction"),
        Some("https://gutendex.com/books/?search=science%20fiction")
    );
    assert_eq!(catalog_base_url("poetry"), Some("https://gutendex.com/books/?search=poetry"));
    assert_eq!(catalog_base_url("Poetry"), None);
    assert_eq!(catalog_base_url(""), None);
    assert_eq!(catalog_base_url("cookery"), None);
}

#[test]
fn page_address_has_to_lie_under_the_catalog() {
    assert_eq!(
        sanitize_page_url("https://gutendex.com/books/?page=2").unwrap(),
        "https://gutendex.com/books/?page=2"
    );
    assert_eq!(
        sanitize_page_url("https://gutendex.com/books/").unwrap(),
        "https://gutendex.com/books/"
    );
    for bad in [
        "",
        "http://gutendex.com/books/",
        "https://gutendex.com/books",
        "https://evil.example/https://gutendex.com/books/",
        " https://gutendex.com/books/",
    ] {
        match sanitize_page_url(bad) {
            Err(GutendexError::InvalidUrl(why)) => assert_eq!(why, "Invalid catalog URL."),
            other => panic!("unexpected: {:?}", other),
        }
    }
}

#[test]
fn trimming() {
    assert_eq!(trim_text("  two words \t\n"), vec!['t', 'w', 'o', ' ', 'w', 'o', 'r', 'd', 's']);
    assert_eq!(trim_text("\u{a0}\u{3000}x\u{2003}\u{85}"), vec!['x']);
    assert_eq!(trim_text(" \r\n "), Vec::<char>::new());
    assert_eq!(trim_text(""), Vec::<char>::new());
    assert_eq!(trim_text("x"), vec!['x']);
    assert_eq!(trim_text("\u{200b}x"), vec!['\u{200b}', 'x']);
}

#[test]
fn pairs_of_the_base_address_are_sorted() {
    let pairs = vec![
        pair("search", "first"),
        pair("languages", "en"),
        pair("topic", "old"),
        pair("search", "second"),
        pair("page", "3"),
    ];
    let (search, others) = split_pairs(&pairs);
    assert_eq!(search, Some("second".to_string()));
    assert_eq!(others, vec![pair("languages", "en"), pair("page", "3")]);
    let (search, others) = split_pairs(&Vec::new());
    assert_eq!(search, None);
    assert!(others.is_empty());
}

#[test]
fn search_of_the_base_and_query_of_the_user_are_joined() {
    assert_eq!(combine_search(None, None), "");
    assert_eq!(combine_search(Some("homer".to_string()), None), "homer");
    assert_eq!(combine_search(None, Some("  iliad ")), "iliad");
    assert_eq!(combine_search(Some("homer".to_string()), Some(" iliad  ")), "homer iliad");
    assert_eq!(combine_search(Some("homer".to_string()), Some("   ")), "homer");
    assert_eq!(combine_search(Some(String::new()), Some("x y")), "x y");
}

#[test]
fn pairs_of_a_request() {
    let existing = vec![pair("languages", "en"), pair("search", "homer"), pair("topic", "old")];
    assert_eq!(
        request_pairs(&existing, Some(" iliad "), Some(" epic ")),
        vec![pair("languages", "en"), pair("search", "homer iliad"), pair("topic", "epic")]
    );
    assert_eq!(
        request_pairs(&existing, None, None),
        vec![pair("languages", "en"), pair("search", "homer")]
    );
    assert_eq!(request_pairs(&Vec::new(), Some(" "), Some("")), Vec::new());
    assert_eq!(request_pairs(&Vec::new(), None, Some("war")), vec![pair("topic", "war")]);
}

#[test]
fn budget_of_an_address() {
    assert!(fits_budget("https://gutendex.com/books/", &vec![pair("search", "x")]));
    assert!(fits_budget("", &Vec::new()));
}

#[test]
fn address_of_a_search() {
    assert_eq!(
        build_catalog_url(
            "https://gutendex.com/books/?search=Shakespeare%2C%20William",
            Some(" hamlet "),
            Some("drama")
        )
        .unwrap(),
        "https://gutendex.com/books/?search=Shakespeare%2C+William+hamlet&topic=drama"
    );
    assert_eq!(
        build_catalog_url("https://gutendex.com/books/", Some("moby dick"), None).unwrap(),
        "https://gutendex.com/books/?search=moby+dick"
    );
    assert_eq!(
        build_catalog_url("https://gutendex.com/books/?search=gothic", None, None).unwrap(),
        "https://gutendex.com/books/?search=gothic"
    );
    assert_eq!(
        build_catalog_url(
            "https://gutendex.com/books/?languages=en&topic=old&search=a&page=2",
            Some(""),
            Some("  new topic ")
        )
        .unwrap(),
        "https://gutendex.com/books/?languages=en&page=2&search=a&topic=new+topic"
    );
}

#[test]
fn address_without_any_pair_keeps_an_empty_query() {
    assert_eq!(
        build_catalog_url("https://gutendex.com/books/", None, None).unwrap(),
        "https://gutendex.com/books/?"
    );
    assert_eq!(
        build_catalog_url("https://gutendex.com/books/?topic=x", Some("  "), Some(" ")).unwrap(),
        "https://gutendex.com/books/?"
    );
}

#[test]
fn base_address_that_does_not_parse_is_refused() {
    assert!(matches!(
        build_catalog_url("not an address", Some("x"), None),
        Err(GutendexError::Url(_))
    ));
    assert!(matches!(build_catalog_url("", None, None), Err(GutendexError::Url(_))));
}

#[test]
fn address_of_a_request() {
    assert_eq!(
        catalog_request_url("gothic", None, Some("castle"), None).unwrap(),
        "https://gutendex.com/books/?search=gothic+castle"
    );
    assert_eq!(
        catalog_request_url("gothic", Some("https://gutendex.com/books/?page=4"), Some("x"), None)
            .unwrap(),
        "https://gutendex.com/books/?page=4"
    );
    assert!(matches!(
        catalog_request_url("gothic", Some("https://example.com/"), None, None),
        Err(GutendexError::InvalidUrl(_))
    ));
    match catalog_request_url("cookery", None, None, None) {
        Err(GutendexError::UnknownCatalog(key)) => assert_eq!(key, "cookery"),
        other => panic!("unexpected: {:?}", other),
    }
}
