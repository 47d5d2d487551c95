use murasaki::config::TransformConfig;
use murasaki::event::{Event, EventKind};
use murasaki::metadata::ProfileMetadata;
use murasaki::transformer::{replace_str, Transformer};

fn config(max_length: usize) -> TransformConfig {
    TransformConfig {
        url_alternative_text: "URL省略".to_string(),
        max_length,
        ellipsis_text: "…".to_string(),
        read_name: true,
    }
}

fn note(content: &str) -> Event {
    Event { author: vec![1, 2, 3], kind: EventKind::TextNote, created_at: 0, content: content.to_string() }
}

fn meta(display_name: Option<&str>, name: Option<&str>) -> ProfileMetadata {
    ProfileMetadata { display_name: display_name.map(|s| s.to_string()), name: name.map(|s| s.to_string()) }
}

#[test]
fn test_truncate_nip19() {
    assert_eq!(
        Transformer::truncate_nip19(
            "hello npub1xajyg2w6kvslletelz9z94jecdsjmg7jqgrgcn8zvjz78k2sq5fslch3pq test".to_string()
        ),
        "hello npub test".to_string()
    );
}

#[test]
fn nip19_compaction_keeps_other_words() {
    assert_eq!(Transformer::truncate_nip19("note1qqq and nothing".to_string()), "note and nothing");
    assert_eq!(Transformer::truncate_nip19("npub1b stays".to_string()), "npub1b stays");
}

#[test]
fn url_is_replaced_by_placeholder() {
    let t = Transformer::new(&config(100));
    assert_eq!(t.transform_note(&note("check http://x.test/y now"), &None), "check URL省略 now");
}

#[test]
fn placeholder_only_text_is_unchanged() {
    let t = Transformer::new(&config(100));
    assert_eq!(t.transform_note(&note("URL省略"), &None), "URL省略");
}

#[test]
fn two_urls_are_each_replaced() {
    let t = Transformer::new(&config(100));
    assert_eq!(
        t.transform_note(&note("a https://a.example/x b http://b.example c"), &None),
        "a URL省略 b URL省略 c"
    );
}

#[test]
fn replace_urls_replaces_given_links() {
    let t = Transformer::new(&config(100));
    let links = vec!["http://x.test/y".to_string()];
    assert_eq!(t.replace_urls(&"see http://x.test/y and http://x.test/y".to_string(), &links), "see URL省略 and URL省略");
}

#[test]
fn long_text_is_truncated_with_ellipsis() {
    let t = Transformer::new(&config(5));
    assert_eq!(t.truncate_long("abcdefgh".to_string()), "abcde…");
    assert_eq!(t.truncate_long("abcde".to_string()), "abcde");
    assert_eq!(t.truncate_long("あいうえおか".to_string()), "あいうえお…");
}

#[test]
fn note_is_prefixed_with_name() {
    let t = Transformer::new(&config(100));
    let md = Some(meta(Some("Alice"), Some("alice")));
    assert_eq!(t.transform_note(&note("hi"), &md), "Aliceさん、hi");
}

#[test]
fn empty_display_name_falls_back_to_name() {
    assert_eq!(Transformer::metadata_to_name(&meta(Some(""), Some("bob"))), Some("bob".to_string()));
    assert_eq!(Transformer::metadata_to_name(&meta(None, Some(""))), None);
    assert_eq!(Transformer::metadata_to_name(&meta(Some(" "), Some("bob"))), Some(" ".to_string()));
}

#[test]
fn reaction_sentence_ignores_content() {
    let t = Transformer::new(&config(100));
    let mut e = note("+");
    e.kind = EventKind::Reaction;
    let md = Some(meta(None, Some("carol")));
    assert_eq!(t.transform_reaction(&e, &md), "carolさんからリアクション受信。");
    e.content = "http://x.test npub1qqq".to_string();
    assert_eq!(t.transform_reaction(&e, &md), "carolさんからリアクション受信。");
    assert_eq!(t.transform_reaction(&e, &None), "リアクション受信。");
}

#[test]
fn finish_note_truncates_then_prefixes() {
    let t = Transformer::new(&config(3));
    let md = Some(meta(Some("Dan"), None));
    assert_eq!(t.finish_note(&md, "abcdef".to_string()), "Danさん、abc…");
}

#[test]
fn replace_matches_std_replace() {
    let cases = [
        ("check http://x.test/y now", "http://x.test/y", "URL省略"),
        ("aaa", "aa", "b"),
        ("abc", "", "x"),
        ("", "", "x"),
        ("", "a", "x"),
        ("ab", "abc", "x"),
        ("あいあい", "い", "う"),
    ];
    for (t, f, r) in cases {
        assert_eq!(replace_str(t, f, r), t.replace(f, r));
    }
    assert_eq!(replace_str("aaa", "aa", "b"), "ba");
    assert_eq!(replace_str("abc", "", "x"), "xaxbxcx");
}
