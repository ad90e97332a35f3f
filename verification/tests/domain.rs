use next::domain::http_method::HttpMethod;
use next::domain::request::GenerationRequest;
use next::domain::resource_name::ResourceName;
use next::error::CliError;

#[test]
fn upper_strings() {
    assert_eq!(HttpMethod::Get.upper(), "GET");
    assert_eq!(HttpMethod::Post.upper(), "POST");
    assert_eq!(HttpMethod::Put.upper(), "PUT");
    assert_eq!(HttpMethod::Delete.upper(), "DELETE");
}

#[test]
fn body_only_for_post_and_put() {
    assert!(!HttpMethod::Get.has_body());
    assert!(HttpMethod::Post.has_body());
    assert!(HttpMethod::Put.has_body());
    assert!(!HttpMethod::Delete.has_body());
}

#[test]
fn all_is_sorted_and_complete() {
    assert_eq!(
        HttpMethod::all(),
        [
            HttpMethod::Get,
            HttpMethod::Post,
            HttpMethod::Put,
            HttpMethod::Delete
        ]
    );
}

#[test]
fn templates_carry_the_name_token() {
    for m in HttpMethod::all() {
        assert!(m.handler_template().contains("$NAME$"));
        assert!(m.controller_fragment().contains("$NAME$"));
        assert!(m.route_import().contains("$NAME$"));
        assert!(m.route_export().contains("$NAME$"));
    }
    assert!(HttpMethod::Get.route_import().contains("from './GET';"));
    assert!(HttpMethod::Delete.route_export().starts_with("export const DELETE = "));
}

#[test]
fn sorts_and_dedups() {
    let req = GenerationRequest::new(
        ResourceName::parse("user").unwrap(),
        vec![HttpMethod::Post, HttpMethod::Get, HttpMethod::Post],
        String::from("."),
        false,
    )
    .unwrap();
    assert_eq!(req.methods, vec![HttpMethod::Get, HttpMethod::Post]);
}

#[test]
fn rejects_empty_methods() {
    let err = GenerationRequest::new(
        ResourceName::parse("user").unwrap(),
        vec![],
        String::from("."),
        false,
    );
    assert!(matches!(err, Err(CliError::NoMethods)));
}

#[test]
fn new_keeps_name_dir_and_force() {
    let req = GenerationRequest::new(
        ResourceName::parse("order").unwrap(),
        vec![HttpMethod::Delete, HttpMethod::Delete, HttpMethod::Put, HttpMethod::Get],
        String::from("api/orders"),
        true,
    )
    .unwrap();
    assert_eq!(req.name.pascal(), "Order");
    assert_eq!(
        req.methods,
        vec![HttpMethod::Get, HttpMethod::Put, HttpMethod::Delete]
    );
    assert_eq!(req.target_dir, "api/orders");
    assert!(req.force);
}

#[test]
fn normalising_twice_changes_nothing() {
    let once = GenerationRequest::new(
        ResourceName::parse("user").unwrap(),
        vec![HttpMethod::Put, HttpMethod::Get, HttpMethod::Put],
        String::from("."),
        false,
    )
    .unwrap();
    let twice = GenerationRequest::new(
        ResourceName::parse("user").unwrap(),
        once.methods.clone(),
        String::from("."),
        false,
    )
    .unwrap();
    assert_eq!(once.methods, twice.methods);
}

#[test]
fn normalises_separators_to_pascal() {
    for raw in ["user-profile", "userProfile", "user_profile", "user profile"] {
        assert_eq!(ResourceName::parse(raw).unwrap().pascal(), "UserProfile");
    }
}

#[test]
fn single_word_upper_and_lower() {
    assert_eq!(ResourceName::parse("user").unwrap().pascal(), "User");
    assert_eq!(ResourceName::parse("USER").unwrap().pascal(), "User");
    assert_eq!(ResourceName::parse("User").unwrap().pascal(), "User");
}

#[test]
fn rejects_empty() {
    assert!(ResourceName::parse("").is_err());
    assert!(ResourceName::parse("   ").is_err());
}

#[test]
fn rejects_path_traversal_and_separators() {
    assert!(ResourceName::parse("../x").is_err());
    assert!(ResourceName::parse("a/b").is_err());
    assert!(ResourceName::parse("a\\b").is_err());
    assert!(ResourceName::parse("a.b").is_err());
}

#[test]
fn rejects_control_chars() {
    assert!(ResourceName::parse("user\nprofile").is_err());
    assert!(ResourceName::parse("user\t").is_err());
}

#[test]
fn invalid_name_error_holds_the_raw_input() {
    match ResourceName::parse(" a/b ") {
        Err(CliError::InvalidName(raw)) => assert_eq!(raw, " a/b "),
        other => panic!("unexpected {:?}", other),
    }
}

#[test]
fn trims_surrounding_white_space() {
    assert_eq!(ResourceName::parse("  order item  ").unwrap().pascal(), "OrderItem");
    assert_eq!(ResourceName::parse("\u{a0}user\u{3000}").unwrap().pascal(), "User");
    // a control character is refused even where trimming would drop it
    assert!(ResourceName::parse("\u{85}user").is_err());
}

#[test]
fn rejects_names_without_letters_or_digits() {
    assert!(ResourceName::parse("-").is_err());
    assert!(ResourceName::parse("_ -").is_err());
    assert_eq!(ResourceName::parse("-7-").unwrap().pascal(), "7");
}

#[test]
fn pascal_keeps_the_letters_and_digits() {
    assert_eq!(ResourceName::parse("XMLHttpRequest").unwrap().pascal(), "XmlHttpRequest");
    assert_eq!(ResourceName::parse("api v2_user").unwrap().pascal(), "ApiV2User");
    assert_eq!(ResourceName::parse("n-a-m-e").unwrap().pascal(), "NAME");
}

#[test]
fn from_pascal_checks_the_normalised_form() {
    assert_eq!(
        ResourceName::from_pascal("x", String::from("Order2")).unwrap().pascal(),
        "Order2"
    );
    assert!(matches!(
        ResourceName::from_pascal("x", String::new()),
        Err(CliError::InvalidName(_))
    ));
    assert!(matches!(
        ResourceName::from_pascal("x", String::from("Or.der")),
        Err(CliError::InvalidName(_))
    ));
}

#[test]
fn clone_keeps_the_name() {
    let n = ResourceName::parse("user-profile").unwrap();
    assert_eq!(n.clone().pascal(), n.pascal());
}

#[test]
fn separator_choice_gives_one_name() {
    let names: Vec<String> = ["user-profile", "user_profile", "user profile", "-user_profile ", "user--profile"]
        .iter()
        .map(|raw| ResourceName::parse(raw).unwrap().pascal().to_string())
        .collect();
    assert!(names.iter().all(|n| n == "UserProfile"));
}

#[test]
fn separator_choice_matters_next_to_other_white_space() {
    assert!(ResourceName::parse(" \u{3000}x").is_ok());
    assert!(ResourceName::parse("-\u{3000}x").is_err());
}

#[test]
fn casing_follows_word_boundaries() {
    for (raw, pascal) in [
        ("XMLHttpRequest", "XmlHttpRequest"),
        ("user2Profile", "User2Profile"),
        ("ABC", "Abc"),
        ("a1b", "A1b"),
        ("order_ID", "OrderId"),
    ] {
        assert_eq!(ResourceName::parse(raw).unwrap().pascal(), pascal, "{raw}");
    }
}
