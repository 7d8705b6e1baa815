use s3rs::clock::Timestamp;
use s3rs::config::{Config, CredentialConfig};
use s3rs::dispatch::{ends_session, list_request, parse_command, request_url, Command};
use s3rs::menu::{menu_line, menu_lines, parse_choice, parse_digits, pick_index};

fn profile(host: &str, user: Option<&str>, access_key: &str) -> CredentialConfig {
    CredentialConfig {
        host: host.to_string(),
        user: user.map(|u| u.to_string()),
        access_key: access_key.to_string(),
        secret_key: "topsecret".to_string(),
        region: None,
        service: None,
    }
}

#[test]
fn selections_show_host_user_and_access_key() {
    let config = Config {
        credential: Some(vec![
            profile("s3.example.com", Some("alice"), "AKIA1"),
            profile("10.0.0.1:7480", None, "AKIA2"),
        ]),
    };
    assert_eq!(
        config.gen_selecitons(),
        vec!["s3.example.com alice (AKIA1)".to_string(), "10.0.0.1:7480  (AKIA2)".to_string()]
    );
}

#[test]
fn selections_of_an_empty_list_are_empty() {
    let config = Config { credential: Some(vec![]) };
    assert!(config.gen_selecitons().is_empty());
}

#[test]
fn profile_without_region_signs_for_storage() {
    let credential = profile("h", None, "AK").credential();
    assert_eq!(credential.access_key, "AK");
    assert_eq!(credential.secret_key, "topsecret");
    assert_eq!(credential.region, "us-east-1");
    assert_eq!(credential.service, "s3");
}

#[test]
fn profile_with_region_and_service_keeps_them() {
    let mut p = profile("h", None, "AK");
    p.region = Some("eu-west-1".to_string());
    p.service = Some("iam".to_string());
    let credential = p.credential();
    assert_eq!(credential.region, "eu-west-1");
    assert_eq!(credential.service, "iam");
}

#[test]
fn digits_are_read_as_std_reads_them() {
    let cases = ["0", "7", "007", "+5", "42", "18446744073709551615", "18446744073709551616",
        "99999999999999999999999", "", "+", "-1", "-0", "1 ", " 1", "1a", "a", "++1", "1+", "١"];
    for case in cases {
        let chars: Vec<char> = case.chars().collect();
        assert_eq!(parse_digits(&chars), case.parse::<usize>().ok(), "for {:?}", case);
    }
}

#[test]
fn choice_is_the_number_within_the_range() {
    assert_eq!(parse_choice("2\n", 1, 3), Some(2));
    assert_eq!(parse_choice("1", 1, 3), Some(1));
    assert_eq!(parse_choice("3\n", 1, 3), Some(3));
    assert_eq!(parse_choice("+3\n", 1, 3), Some(3));
    assert_eq!(parse_choice("1\n2\n", 1, 20), Some(12));
}

#[test]
fn choice_outside_the_range_or_unreadable_asks_again() {
    assert_eq!(parse_choice("0\n", 1, 3), None);
    assert_eq!(parse_choice("4\n", 1, 3), None);
    assert_eq!(parse_choice("\n", 1, 3), None);
    assert_eq!(parse_choice("two\n", 1, 3), None);
    assert_eq!(parse_choice("2\r\n", 1, 3), None);
    assert_eq!(parse_choice(" 2\n", 1, 3), None);
    assert_eq!(parse_choice("1\n", 1, 0), None);
}

#[test]
fn picked_index_counts_from_zero() {
    assert_eq!(pick_index("1\n", 3), Some(0));
    assert_eq!(pick_index("3\n", 3), Some(2));
    assert_eq!(pick_index("4\n", 3), None);
    assert_eq!(pick_index("0\n", 3), None);
    assert_eq!(pick_index("1\n", 0), None);
}

#[test]
fn menu_line_pads_the_number_and_drops_line_feeds() {
    assert_eq!(menu_line(1, 1, "first"), "1. first\n");
    assert_eq!(menu_line(2, 1, "first"), format!("{1:0$}. {2}\n", 2, 1, "first"));
    assert_eq!(menu_line(2, 1, "first"), " 1. first\n");
    assert_eq!(menu_line(2, 10, "te\nnth\n"), "10. tenth\n");
    assert_eq!(menu_line(0, 123, ""), "123. \n");
    assert_eq!(menu_line(4, 0, "zero"), "   0. zero\n");
    assert_eq!(
        menu_line(3, 18446744073709551615, "max"),
        "18446744073709551615. max\n"
    );
}

#[test]
fn menu_lines_number_the_items_from_one() {
    let items = vec!["a".to_string(), "b\n".to_string(), "c".to_string()];
    assert_eq!(
        menu_lines(2, &items),
        vec![" 1. a\n".to_string(), " 2. b\n".to_string(), " 3. c\n".to_string()]
    );
    assert!(menu_lines(1, &Vec::new()).is_empty());
}

#[test]
fn commands_are_named_by_their_first_letters() {
    assert_eq!(parse_command("la"), Command::List);
    assert_eq!(parse_command("la /bucket"), Command::List);
    assert_eq!(parse_command("exit"), Command::Exit);
    assert_eq!(parse_command("exit now"), Command::Exit);
    assert_eq!(parse_command("help"), Command::Unknown);
    assert_eq!(parse_command(""), Command::Unknown);
    assert_eq!(parse_command("l"), Command::Unknown);
    assert_eq!(parse_command(" la"), Command::Unknown);
    assert_eq!(parse_command("LA"), Command::Unknown);
}

#[test]
fn only_the_bare_word_ends_the_session() {
    assert!(ends_session("exit"));
    assert!(!ends_session("exit now"));
    assert!(!ends_session("exi"));
    assert!(!ends_session(""));
    assert!(!ends_session("la"));
}

#[test]
fn url_is_host_path_and_canonical_query() {
    assert_eq!(
        request_url("s3.example.com", "/", &[("format", "json")]),
        "http://s3.example.com/?format=json"
    );
    assert_eq!(
        request_url("h", "/b", &[("z", "a b"), ("a", "1")]),
        "http://h/b?a=1&z=a%20b"
    );
}

#[test]
fn listing_request_is_signed_for_the_profile() {
    let now = Timestamp::new(2024, 1, 2, 3, 4, 5).unwrap();
    let request = list_request(&profile("s3.example.com", None, "AKID"), &now).unwrap();
    assert_eq!(request.url, "http://s3.example.com/?format=json");
    assert_eq!(request.x_amz_date, "20240102T030405Z");
    assert_eq!(
        request.authorization,
        "AWS4-HMAC-SHA256 Credential=AKID/20240102/us-east-1/s3/aws4_request, \
         SignedHeaders=host;x-amz-date, \
         Signature=8a5505eef50efb916d448ba5923c3602d14b8635b9939cb97e6a6a5dd0bc719c"
    );
}

#[test]
fn listing_request_follows_the_region_and_service_of_the_profile() {
    let mut p = profile("s3.example.com", None, "AKID");
    p.service = Some("iam".to_string());
    let now = Timestamp::new(2024, 1, 2, 3, 4, 5).unwrap();
    let request = list_request(&p, &now).unwrap();
    assert_eq!(
        request.authorization,
        "AWS4-HMAC-SHA256 Credential=AKID/20240102/us-east-1/iam/aws4_request, \
         SignedHeaders=host;x-amz-date, \
         Signature=bef81c270aeb179eeb03fc738772a332d8036bba9b11580cb2faafc8740935a9"
    );
}

#[test]
fn timestamps_are_zero_padded() {
    let t = Timestamp::new(2013, 5, 24, 0, 0, 0).unwrap();
    assert_eq!(t.timestamp_full(), "20130524T000000Z");
    assert_eq!(t.timestamp_date(), "20130524");
    let t = Timestamp::new(987, 12, 31, 23, 59, 60).unwrap();
    assert_eq!(t.timestamp_full(), "09871231T235960Z");
    assert_eq!(t.timestamp_date(), "09871231");
    let t = Timestamp::new(0, 1, 1, 9, 8, 7).unwrap();
    assert_eq!(t.timestamp_full(), "00000101T090807Z");
}

#[test]
fn date_is_the_start_of_the_full_timestamp() {
    let t = Timestamp::new(9999, 10, 9, 18, 7, 56).unwrap();
    assert_eq!(t.timestamp_full(), "99991009T180756Z");
    assert_eq!(&t.timestamp_full()[..8], t.timestamp_date());
}

#[test]
fn fields_out_of_range_make_no_timestamp() {
    assert_eq!(Timestamp::new(10000, 1, 1, 0, 0, 0), None);
    assert_eq!(Timestamp::new(2024, 0, 1, 0, 0, 0), None);
    assert_eq!(Timestamp::new(2024, 13, 1, 0, 0, 0), None);
    assert_eq!(Timestamp::new(2024, 1, 0, 0, 0, 0), None);
    assert_eq!(Timestamp::new(2024, 1, 32, 0, 0, 0), None);
    assert_eq!(Timestamp::new(2024, 1, 1, 24, 0, 0), None);
    assert_eq!(Timestamp::new(2024, 1, 1, 0, 60, 0), None);
    assert_eq!(Timestamp::new(2024, 1, 1, 0, 0, 61), None);
    assert!(Timestamp::new(2024, 12, 31, 23, 59, 60).is_some());
}
