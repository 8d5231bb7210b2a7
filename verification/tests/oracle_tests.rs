use georacer_server::oracle::{
    build_compare_request, contains_yes_str, extract_verdict, Candidate, GeminiResponse,
    ResponseContent, ResponsePart,
};

fn reply(text: &str) -> GeminiResponse {
    GeminiResponse {
        candidates: vec![Candidate {
            content: ResponseContent {
                parts: vec![ResponsePart { text: text.to_string() }],
            },
        }],
    }
}

#[test]
fn the_request_carries_the_prompt_and_both_images() {
    let r = build_compare_request(&"QUFB".to_string(), &"QkJC".to_string());
    assert_eq!(r.contents.len(), 1);
    let parts = &r.contents[0].parts;
    assert_eq!(parts.len(), 3);

    let prompt = parts[0].text.as_ref().expect("prompt text");
    assert!(prompt.starts_with("Are these two images of the same real-world object"));
    assert!(parts[0].inline_data.is_none());

    let first = parts[1].inline_data.as_ref().expect("first image");
    assert_eq!(first.mime_type, "image/jpeg");
    assert_eq!(first.data, "QUFB");
    assert!(parts[1].text.is_none());

    let second = parts[2].inline_data.as_ref().expect("second image");
    assert_eq!(second.mime_type, "image/jpeg");
    assert_eq!(second.data, "QkJC");
    assert!(parts[2].text.is_none());
}

#[test]
fn an_uppercase_yes_still_reads_as_yes() {
    // the verdict is read off the lowercased text: "YES" only matches
    // because the reply really was folded to lower case
    assert!(extract_verdict(&reply("YES")));
    assert!(extract_verdict(&reply("Yes, they match.")));
}

#[test]
fn a_no_reads_as_no() {
    assert!(!extract_verdict(&reply("no")));
    assert!(!extract_verdict(&reply("No, different objects.")));
    assert!(!extract_verdict(&reply("")));
}

#[test]
fn yes_buried_in_prose_still_counts() {
    assert!(extract_verdict(&reply("I would say yes.")));
    assert!(extract_verdict(&reply("eyes")));
}

#[test]
fn a_shapeless_reply_reads_as_no() {
    let empty = GeminiResponse { candidates: vec![] };
    assert!(!extract_verdict(&empty));
    let no_parts = GeminiResponse {
        candidates: vec![Candidate { content: ResponseContent { parts: vec![] } }],
    };
    assert!(!extract_verdict(&no_parts));
}

#[test]
fn the_word_search_is_exact() {
    assert!(contains_yes_str(&"yes".to_string()));
    assert!(contains_yes_str(&"ayes".to_string()));
    assert!(!contains_yes_str(&"ye s".to_string()));
    assert!(!contains_yes_str(&"ys".to_string()));
    assert!(!contains_yes_str(&"".to_string()));
    assert!(!contains_yes_str(&"YES".to_string()));
}
