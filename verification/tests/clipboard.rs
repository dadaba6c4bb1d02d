use druid::clipboard::{preferred_format, string_formats, type_names, LookupStep, StringLookup};

#[test]
fn a_string_is_offered_in_every_text_format() {
    let formats = string_formats("héllo");
    let names: Vec<&str> = formats.iter().map(|f| f.identifier).collect();
    assert_eq!(
        names,
        vec!["UTF8_STRING", "TEXT", "STRING", "text/plain;charset=utf-8", "text/plain"]
    );
    for format in &formats {
        assert_eq!(format.data, "héllo".as_bytes().to_vec());
    }
}

#[test]
fn preferred_format_is_the_first_available_one() {
    let available = vec![String::from("text/html"), String::from("image/png"), String::from("TARGETS")];
    assert_eq!(preferred_format(&["image/png", "text/html"], &available), Some("image/png"));
    assert_eq!(preferred_format(&["text/plain", "text/html", "image/png"], &available), Some("text/html"));
}

#[test]
fn preferred_format_none_when_nothing_matches() {
    let available = vec![String::from("text/html")];
    assert_eq!(preferred_format(&["image/png"], &available), None);
    assert_eq!(preferred_format(&[], &available), None);
    assert_eq!(preferred_format(&["text/html"], &Vec::new()), None);
}

#[test]
fn type_names_keep_only_valid_names_in_order() {
    let names = vec![
        Some(b"TARGETS".to_vec()),
        None,
        Some(vec![0xff, 0xfe]),
        Some("UTF8_STRING".as_bytes().to_vec()),
        Some(Vec::new()),
    ];
    assert_eq!(
        type_names(names),
        vec![String::from("TARGETS"), String::from("UTF8_STRING"), String::new()]
    );
}

fn run_lookup(contents: Vec<Option<Vec<u8>>>) -> (Option<String>, Vec<&'static str>) {
    let mut asked = Vec::new();
    let mut lookup = StringLookup::new();
    let mut contents = contents.into_iter();
    loop {
        asked.push(lookup.target());
        match lookup.receive(contents.next().unwrap_or(None)) {
            LookupStep::Fetch(next) => lookup = next,
            LookupStep::Found(s) => return (Some(s), asked),
            LookupStep::NotFound => return (None, asked),
        }
    }
}

#[test]
fn lookup_stops_at_the_first_text() {
    let (found, asked) = run_lookup(vec![Some(b"first".to_vec()), Some(b"second".to_vec())]);
    assert_eq!(found, Some(String::from("first")));
    assert_eq!(asked, vec!["UTF8_STRING"]);
}

#[test]
fn lookup_skips_missing_and_invalid_contents() {
    let (found, asked) = run_lookup(vec![None, Some(vec![0xc3]), Some("ok ✓".as_bytes().to_vec())]);
    assert_eq!(found, Some(String::from("ok ✓")));
    assert_eq!(asked, vec!["UTF8_STRING", "TEXT", "STRING"]);
}

#[test]
fn lookup_ends_without_text_after_all_formats() {
    let (found, asked) = run_lookup(vec![None, None, None, None, Some(vec![0x80])]);
    assert_eq!(found, None);
    assert_eq!(asked, vec!["UTF8_STRING", "TEXT", "STRING", "text/plain;charset=utf-8", "text/plain"]);
}
