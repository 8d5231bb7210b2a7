//! The similarity oracle's request and verdict logic.
//!
//! Whether two photos show the same object is decided by an external
//! vision service.  The transport — HTTP, keys, timeouts — lives in the
//! embedding; what is verified here is everything decidable from plain
//! values: the exact shape of the request the service is asked with, and
//! the exact reading of the answer it returns.  The service answers in
//! prose; the reading is: the first candidate's first text part, lowercased,
//! contains the word "yes".  An empty or shapeless answer reads as `false`,
//! matching the policy that an unusable comparison counts as a wrong guess
//! rather than stalling the round.

use vstd::prelude::*;

verus! {

/// A request to the vision service.
#[derive(Debug)]
pub struct GeminiRequest {
    pub contents: Vec<RequestContent>,
}

/// One content block of a request.
#[derive(Debug)]
pub struct RequestContent {
    pub parts: Vec<RequestPart>,
}

/// One part of a content block: prose or an inline image, never both.
#[derive(Debug)]
pub struct RequestPart {
    pub text: Option<String>,
    pub inline_data: Option<InlineData>,
}

/// An inline image, base64-encoded.
#[derive(Debug)]
pub struct InlineData {
    pub mime_type: String,
    pub data: String,
}

/// The vision service's reply.
#[derive(Debug)]
pub struct GeminiResponse {
    pub candidates: Vec<Candidate>,
}

/// One candidate answer.
#[derive(Debug)]
pub struct Candidate {
    pub content: ResponseContent,
}

/// The content of a candidate answer.
#[derive(Debug)]
pub struct ResponseContent {
    pub parts: Vec<ResponsePart>,
}

/// One text part of a candidate answer.
#[derive(Debug)]
pub struct ResponsePart {
    pub text: String,
}

/// The question the service is asked, verbatim.
pub open spec fn compare_prompt() -> Seq<char> {
    "Are these two images of the same real-world object or location? The images may be from different perspectives or in different lighting. Answer with only 'yes' or 'no'."@
}

/// The image payloads' declared media type, verbatim.
pub open spec fn image_mime() -> Seq<char> {
    "image/jpeg"@
}

/// Builds the comparison request: one content block of exactly three
/// parts — the prompt, then the two images, in the order given.
pub fn build_compare_request(image1_b64: &String, image2_b64: &String) -> (r: GeminiRequest)
    ensures
        r.contents@.len() == 1,
        r.contents@[0].parts@.len() == 3,
        r.contents@[0].parts@[0].text matches Some(t) && t@ == compare_prompt(),
        r.contents@[0].parts@[0].inline_data is None,
        r.contents@[0].parts@[1].text is None,
        r.contents@[0].parts@[1].inline_data matches Some(d) && d.mime_type@ == image_mime()
            && d.data@ == image1_b64@,
        r.contents@[0].parts@[2].text is None,
        r.contents@[0].parts@[2].inline_data matches Some(d) && d.mime_type@ == image_mime()
            && d.data@ == image2_b64@,
{
    let prompt =
        "Are these two images of the same real-world object or location? The images may be from different perspectives or in different lighting. Answer with only 'yes' or 'no'.";
    proof {
        reveal_strlit(
            "Are these two images of the same real-world object or location? The images may be from different perspectives or in different lighting. Answer with only 'yes' or 'no'.",
        );
    }
    let mut parts: Vec<RequestPart> = Vec::new();
    parts.push(RequestPart { text: Some(prompt.to_owned()), inline_data: None });
    parts.push(RequestPart {
        text: None,
        inline_data: Some(InlineData {
            mime_type: String::from_str("image/jpeg"),
            data: image1_b64.clone(),
        }),
    });
    parts.push(RequestPart {
        text: None,
        inline_data: Some(InlineData {
            mime_type: String::from_str("image/jpeg"),
            data: image2_b64.clone(),
        }),
    });
    let mut contents: Vec<RequestContent> = Vec::new();
    contents.push(RequestContent { parts });
    GeminiRequest { contents }
}

/// The word "yes" occurs somewhere in `s`.
pub open spec fn contains_yes(s: Seq<char>) -> bool {
    exists|i: int|
        0 <= i && i + 3 <= s.len() && #[trigger] s[i] == 'y' && s[i + 1] == 'e' && s[i + 2] == 's'
}

/// What the vision service's text folds to in lower case.  Unicode case
/// folding is a function of the characters alone; its pages-long table is
/// not restated here, only named.
pub uninterp spec fn lower_of(s: Seq<char>) -> Seq<char>;

/// Relies on `str::to_lowercase` for Unicode lowercasing; the result
/// depends on the characters of the input alone.
#[verifier::external_body]
fn lowercase(s: &String) -> (r: String)
    ensures
        r@ == lower_of(s@),
{
    s.to_lowercase()
}

/// Whether the word "yes" stands somewhere in the string.
pub fn contains_yes_str(s: &String) -> (r: bool)
    ensures
        r == contains_yes(s@),
{
    let slice = s.as_str();
    let n: usize = slice.unicode_len();
    if n < 3 {
        return false;
    }
    for i in 0..n - 2
        invariant
            n == s@.len(),
            n >= 3,
            slice@ == s@,
            forall|j: int|
                0 <= j < i ==> !(#[trigger] s@[j] == 'y' && s@[j + 1] == 'e' && s@[j + 2] == 's'),
    {
        let a = slice.get_char(i);
        let b = slice.get_char(i + 1);
        let c = slice.get_char(i + 2);
        if a == 'y' && b == 'e' && c == 's' {
            assert(contains_yes(s@));
            return true;
        }
    }
    false
}

/// What a reply reads as: the first candidate's first text part,
/// lowercased, contains "yes"; anything shapeless reads as `false`.
pub open spec fn verdict_of(resp: GeminiResponse) -> bool {
    if resp.candidates@.len() > 0 && resp.candidates@[0].content.parts@.len() > 0 {
        contains_yes(lower_of(resp.candidates@[0].content.parts@[0].text@))
    } else {
        false
    }
}

/// Reads the service's verdict out of its reply.
pub fn extract_verdict(resp: &GeminiResponse) -> (r: bool)
    ensures
        r == verdict_of(*resp),
{
    if resp.candidates.len() > 0 {
        let c = &resp.candidates[0];
        if c.content.parts.len() > 0 {
            let lowered = lowercase(&c.content.parts[0].text);
            return contains_yes_str(&lowered);
        }
    }
    false
}

} // verus!
