//! Driving AI chat sites (ChatGPT, Gemini, Grok) in Safari: the values the
//! operations return, and the decisions taken on what the pages report.
use vstd::prelude::*;

use crate::text::{chars_eq, chars_of, contains, contains_exec, trim, trim_chars};

pub mod chatgpt;
pub mod effort;
pub mod gemini;
pub mod grok;
pub mod media;
pub mod watch;

verus! {

broadcast use vstd::string::group_string_axioms;

/// A Gemini creation mode.
#[derive(Clone, Copy, Debug, PartialEq, Eq)]
pub enum GeminiMode {
    Image,
    DeepResearch,
    Video,
    Music,
}

/// A provider's page, ready in a mode.
#[derive(Debug, Clone, PartialEq, Eq)]
pub struct SafariAiReadyResult {
    pub provider: String,
    pub mode: String,
    pub status: String,
}

/// An answer read from a provider's page.
#[derive(Debug, Clone, PartialEq, Eq)]
pub struct SafariAiResponseResult {
    pub provider: String,
    pub status: String,
    pub response: String,
    pub conversation_url: Option<String>,
}

/// An image on a provider's page, and whether it has loaded.
#[derive(Clone, Debug, PartialEq, Eq)]
pub struct SafariAiImage {
    pub url: String,
    pub loaded: bool,
}

/// The images a provider's page shows, with the state of the generation.
#[derive(Clone, Debug, PartialEq, Eq)]
pub struct SafariAiImageResult {
    pub provider: String,
    pub mode: String,
    pub status: String,
    pub conversation_url: Option<String>,
    pub images: Vec<SafariAiImage>,
}

/// A conversation in a provider's history.
#[derive(Clone, Debug, PartialEq, Eq)]
pub struct SafariConversation {
    pub title: String,
    pub url: String,
}

/// The state of a deep research run.
#[derive(Clone, Debug, PartialEq, Eq)]
pub struct SafariDeepResearchResult {
    pub provider: String,
    pub mode: String,
    pub status: String,
    pub conversation_url: Option<String>,
    pub plan: Option<String>,
    pub response: Option<String>,
    pub actions: Vec<String>,
}

/// Whether a polled answer is to be ignored: empty, or the prompt itself.
pub open spec fn spec_should_skip_response(trimmed: Seq<char>, prompt: Seq<char>) -> bool {
    trimmed.len() == 0 || trimmed == trim(prompt)
}

fn should_skip_response(trimmed: &str, prompt: &str) -> (r: bool)
    ensures
        r == spec_should_skip_response(trimmed@, prompt@),
{
    let t = chars_of(trimmed);
    if t.len() == 0 {
        return true;
    }
    let p = chars_of(prompt);
    let pt = trim_chars(p.as_slice());
    chars_eq(t.as_slice(), pt.as_slice())
}

/// Whether a polled Gemini answer is to be ignored.
pub fn should_skip_gemini_response(trimmed: &str, prompt: &str) -> (r: bool)
    ensures
        r == spec_should_skip_response(trimmed@, prompt@),
{
    should_skip_response(trimmed, prompt)
}

/// Whether a polled ChatGPT answer is to be ignored.
pub fn should_skip_chatgpt_response(trimmed: &str, prompt: &str) -> (r: bool)
    ensures
        r == spec_should_skip_response(trimmed@, prompt@),
{
    should_skip_response(trimmed, prompt)
}

/// Whether a polled Grok answer is to be ignored.
pub fn should_skip_grok_response(trimmed: &str, prompt: &str) -> (r: bool)
    ensures
        r == spec_should_skip_response(trimmed@, prompt@),
{
    should_skip_response(trimmed, prompt)
}

/// The prompt-box placeholders that show a Gemini mode is active.
pub open spec fn spec_gemini_mode_placeholders(mode: GeminiMode) -> Seq<Seq<char>> {
    match mode {
        GeminiMode::Image => seq!["請輸入圖片說明"@, "Describe the image"@, "Describe the image you want to create"@],
        GeminiMode::DeepResearch => seq!["你想研究什麼？"@, "What do you want to research?"@],
        GeminiMode::Video => seq!["描述影片"@, "Describe the video"@, "Describe your video"@],
        GeminiMode::Music => seq!["描述音樂"@, "描述要創作的音樂"@, "Describe the music"@, "Describe the music you"@],
    }
}

/// The placeholders of a Gemini mode.
pub fn gemini_mode_placeholders(mode: GeminiMode) -> (r: Vec<&'static str>)
    ensures
        r@.map_values(|s: &'static str| s@) == spec_gemini_mode_placeholders(mode),
{
    let v: Vec<&'static str> = match mode {
        GeminiMode::Image => vec!["請輸入圖片說明", "Describe the image", "Describe the image you want to create"],
        GeminiMode::DeepResearch => vec!["你想研究什麼？", "What do you want to research?"],
        GeminiMode::Video => vec!["描述影片", "Describe the video", "Describe your video"],
        GeminiMode::Music => vec!["描述音樂", "描述要創作的音樂", "Describe the music", "Describe the music you"],
    };
    assert(v@.map_values(|s: &'static str| s@) =~= spec_gemini_mode_placeholders(mode));
    v
}

/// The slug of a Gemini mode.
pub open spec fn spec_gemini_mode_slug(mode: GeminiMode) -> Seq<char> {
    match mode {
        GeminiMode::Image => "image"@,
        GeminiMode::DeepResearch => "deep-research"@,
        GeminiMode::Video => "video"@,
        GeminiMode::Music => "music"@,
    }
}

/// The slug of a Gemini mode.
pub fn gemini_mode_slug(mode: GeminiMode) -> (r: &'static str)
    ensures
        r@ == spec_gemini_mode_slug(mode),
{
    match mode {
        GeminiMode::Image => "image",
        GeminiMode::DeepResearch => "deep-research",
        GeminiMode::Video => "video",
        GeminiMode::Music => "music",
    }
}

/// The page of a Gemini mode.
pub open spec fn spec_gemini_mode_url(mode: GeminiMode) -> Seq<char> {
    match mode {
        GeminiMode::Image => "https://gemini.google.com/image"@,
        GeminiMode::DeepResearch => "https://gemini.google.com/deepresearch"@,
        GeminiMode::Video => "https://gemini.google.com/veo"@,
        GeminiMode::Music => "https://gemini.google.com/music"@,
    }
}

/// The page of a Gemini mode.
pub fn gemini_mode_url(mode: GeminiMode) -> (r: &'static str)
    ensures
        r@ == spec_gemini_mode_url(mode),
{
    match mode {
        GeminiMode::Image => "https://gemini.google.com/image",
        GeminiMode::DeepResearch => "https://gemini.google.com/deepresearch",
        GeminiMode::Video => "https://gemini.google.com/veo",
        GeminiMode::Music => "https://gemini.google.com/music",
    }
}

/// Whether every image has loaded.
pub open spec fn all_loaded(images: Seq<SafariAiImage>) -> bool {
    forall|i: int| 0 <= i < images.len() ==> #[trigger] images[i].loaded
}

/// An image result is final: the generation is complete and it shows at
/// least one image, every one of them loaded.
pub open spec fn spec_image_result_is_ready(status: Seq<char>, images: Seq<SafariAiImage>) -> bool {
    status == "complete"@ && images.len() > 0 && all_loaded(images)
}

fn is_complete(status: &String) -> (r: bool)
    ensures
        r == (status@ == "complete"@),
{
    let s = chars_of(status.as_str());
    chars_eq(s.as_slice(), chars_of("complete").as_slice())
}

/// Whether a polled ChatGPT image result is final.
pub fn chatgpt_image_result_is_ready(result: &SafariAiImageResult) -> (r: bool)
    ensures
        r == spec_image_result_is_ready(result.status@, result.images@),
{
    if !is_complete(&result.status) || result.images.len() == 0 {
        return false;
    }
    let mut i: usize = 0;
    while i < result.images.len()
        invariant
            i <= result.images.len(),
            forall|j: int| 0 <= j < i ==> #[trigger] result.images@[j].loaded,
        decreases result.images.len() - i,
    {
        if !result.images[i].loaded {
            return false;
        }
        i = i + 1;
    }
    true
}

/// Whether to stop waiting with a completed result that shows no image: only
/// once `grace_seconds` have passed since the prompt was sent.
pub open spec fn spec_should_return_empty_complete(status: Seq<char>, images: Seq<SafariAiImage>, elapsed_millis: u128, grace_seconds: u64) -> bool {
    status == "complete"@ && images.len() == 0 && elapsed_millis >= grace_seconds * 1000
}

/// Whether to stop waiting with a completed ChatGPT result that shows no
/// image, `elapsed_millis` after the prompt was sent.
pub fn chatgpt_should_return_empty_complete_result(result: &SafariAiImageResult, elapsed_millis: u128, empty_complete_grace_seconds: u64) -> (r: bool)
    ensures
        r == spec_should_return_empty_complete(result.status@, result.images@, elapsed_millis, empty_complete_grace_seconds),
{
    is_complete(&result.status) && result.images.len() == 0 && elapsed_millis >= empty_complete_grace_seconds as u128 * 1000
}

/// One image entry of an image-list reply, as the page wrote it.
#[derive(Clone, Debug, PartialEq, Eq)]
pub struct ImageEntry {
    pub url: Option<String>,
    pub loaded: Option<bool>,
}

/// The members of an image-list reply, as the page wrote them.
#[derive(Clone, Debug, PartialEq, Eq)]
pub struct ImagePayload {
    pub status: Option<String>,
    pub conversation_url: Option<String>,
    pub images: Option<Vec<ImageEntry>>,
}

/// The images of the entries that have a URL, in order; an image counts as
/// loaded only when the page said so.
pub open spec fn spec_payload_images(entries: Seq<ImageEntry>) -> Seq<SafariAiImage>
    decreases entries.len(),
{
    if entries.len() == 0 {
        seq![]
    } else {
        let rest = spec_payload_images(entries.drop_last());
        match entries.last().url {
            Some(u) => rest.push(SafariAiImage {
                url: u,
                loaded: match entries.last().loaded {
                    Some(b) => b,
                    None => false,
                },
            }),
            None => rest,
        }
    }
}

/// The image views, for comparing.
pub open spec fn image_views(images: Seq<SafariAiImage>) -> Seq<(Seq<char>, bool)> {
    images.map_values(|i: SafariAiImage| (i.url@, i.loaded))
}

fn payload_images(entries: &Vec<ImageEntry>) -> (r: Vec<SafariAiImage>)
    ensures
        image_views(r@) == image_views(spec_payload_images(entries@)),
{
    let mut out: Vec<SafariAiImage> = Vec::new();
    let mut i: usize = 0;
    while i < entries.len()
        invariant
            i <= entries.len(),
            image_views(out@) == image_views(spec_payload_images(entries@.take(i as int))),
        decreases entries.len() - i,
    {
        proof {
            assert(entries@.take(i + 1).drop_last() =~= entries@.take(i as int));
            assert(entries@.take(i + 1).last() == entries@[i as int]);
        }
        match &entries[i].url {
            Some(u) => {
                let loaded = match entries[i].loaded {
                    Some(b) => b,
                    None => false,
                };
                let ghost before = out@;
                let ghost want = spec_payload_images(entries@.take(i as int));
                out.push(SafariAiImage { url: u.clone(), loaded });
                assert(image_views(out@) =~= image_views(before).push((u@, loaded)));
                assert(image_views(spec_payload_images(entries@.take(i + 1))) =~= image_views(want).push((u@, loaded)));
            },
            None => {},
        }
        i = i + 1;
    }
    assert(entries@.take(entries.len() as int) =~= entries@);
    out
}

/// The image result an image-list reply stands for: the status (`running`
/// when missing), the conversation URL, and the images that have a URL.
pub fn chatgpt_image_result(payload: &ImagePayload) -> (r: SafariAiImageResult)
    ensures
        r.provider@ == "chatgpt"@,
        r.mode@ == "image"@,
        r.status@ == match payload.status {
            Some(s) => s@,
            None => "running"@,
        },
        crate::safari::types::opt_string(r.conversation_url) == crate::safari::types::opt_string(payload.conversation_url),
        image_views(r.images@) == match payload.images {
            Some(v) => image_views(spec_payload_images(v@)),
            None => Seq::empty(),
        },
{
    let status = match &payload.status {
        Some(s) => s.clone(),
        None => String::from_str("running"),
    };
    let conversation_url = match &payload.conversation_url {
        Some(u) => Some(u.clone()),
        None => None,
    };
    let images = match &payload.images {
        Some(v) => payload_images(v),
        None => {
            let e: Vec<SafariAiImage> = Vec::new();
            assert(image_views(e@) =~= Seq::empty());
            e
        },
    };
    SafariAiImageResult {
        provider: String::from_str("chatgpt"),
        mode: String::from_str("image"),
        status,
        conversation_url,
        images,
    }
}

/// Whether a prompt-box placeholder shows that `mode` is active: it contains
/// one of the mode's placeholders.
pub open spec fn spec_placeholder_shows_mode(mode: GeminiMode, placeholder: Seq<char>) -> bool {
    exists|i: int| 0 <= i < spec_gemini_mode_placeholders(mode).len() && contains(placeholder, #[trigger] spec_gemini_mode_placeholders(mode)[i])
}

/// Whether the placeholder shows that `mode` is active.
pub fn placeholder_shows_mode(mode: GeminiMode, placeholder: &str) -> (r: bool)
    ensures
        r == spec_placeholder_shows_mode(mode, placeholder@),
{
    let ps = gemini_mode_placeholders(mode);
    let ghost want = spec_gemini_mode_placeholders(mode);
    let text = chars_of(placeholder);
    let mut i: usize = 0;
    while i < ps.len()
        invariant
            i <= ps.len(),
            ps@.map_values(|s: &'static str| s@) == want,
            want == spec_gemini_mode_placeholders(mode),
            text@ == placeholder@,
            forall|j: int| 0 <= j < i ==> !contains(placeholder@, #[trigger] want[j]),
        decreases ps.len() - i,
    {
        assert(want[i as int] == ps@[i as int]@);
        let pv = chars_of(ps[i]);
        if contains_exec(text.as_slice(), pv.as_slice()) {
            assert(contains(placeholder@, spec_gemini_mode_placeholders(mode)[i as int]));
            return true;
        }
        i = i + 1;
    }
    false
}

/// The members of a deep research reply, as the page wrote them; an action
/// that is not text is `None`.
#[derive(Clone, Debug, PartialEq, Eq)]
pub struct DeepResearchPayload {
    pub status: Option<String>,
    pub plan: Option<String>,
    pub response: Option<String>,
    pub actions: Option<Vec<Option<String>>>,
}

/// The textual actions, in order.
pub open spec fn text_actions(actions: Seq<Option<String>>) -> Seq<Seq<char>>
    decreases actions.len(),
{
    if actions.len() == 0 {
        seq![]
    } else {
        let r = text_actions(actions.drop_last());
        match actions.last() {
            Some(a) => r.push(a@),
            None => r,
        }
    }
}

/// The views of a list of strings.
pub open spec fn string_views(v: Seq<String>) -> Seq<Seq<char>> {
    v.map_values(|s: String| s@)
}

fn collect_actions(actions: &Vec<Option<String>>) -> (r: Vec<String>)
    ensures
        string_views(r@) == text_actions(actions@),
{
    let mut out: Vec<String> = Vec::new();
    let mut i: usize = 0;
    while i < actions.len()
        invariant
            i <= actions.len(),
            string_views(out@) == text_actions(actions@.take(i as int)),
        decreases actions.len() - i,
    {
        proof {
            assert(actions@.take(i + 1).drop_last() =~= actions@.take(i as int));
            assert(actions@.take(i + 1).last() == actions@[i as int]);
        }
        match &actions[i] {
            Some(a) => {
                let ghost prev = out@;
                out.push(a.clone());
                assert(string_views(out@) =~= string_views(prev).push(a@));
            },
            None => {},
        }
        i = i + 1;
    }
    assert(actions@.take(actions.len() as int) =~= actions@);
    out
}

/// The deep research state a reply stands for; a reply without a status is
/// an error.
pub fn deep_research_result(payload: &DeepResearchPayload) -> (r: Result<SafariDeepResearchResult, crate::error::MacosError>)
    ensures
        payload.status is None <==> r is Err,
        r matches Err(e) ==> e@ == crate::error::MacosErrorView::Other("deep research payload missing status"@),
        r matches Ok(v) ==> {
            &&& v.provider@ == "gemini"@
            &&& v.mode@ == "deep-research"@
            &&& Some(v.status@) == crate::safari::types::opt_string(payload.status)
            &&& v.conversation_url is None
            &&& crate::safari::types::opt_string(v.plan) == crate::safari::types::opt_string(payload.plan)
            &&& crate::safari::types::opt_string(v.response) == crate::safari::types::opt_string(payload.response)
            &&& string_views(v.actions@) == match payload.actions {
                Some(a) => text_actions(a@),
                None => Seq::empty(),
            }
        },
{
    let status = match &payload.status {
        Some(s) => s.clone(),
        None => {
            return Err(crate::error::MacosError::Other(String::from_str("deep research payload missing status")));
        },
    };
    let actions = match &payload.actions {
        Some(a) => collect_actions(a),
        None => {
            let v: Vec<String> = Vec::new();
            assert(string_views(v@) =~= Seq::<Seq<char>>::empty());
            v
        },
    };
    let plan = match &payload.plan {
        Some(p) => Some(p.clone()),
        None => None,
    };
    let response = match &payload.response {
        Some(p) => Some(p.clone()),
        None => None,
    };
    Ok(SafariDeepResearchResult {
        provider: String::from_str("gemini"),
        mode: String::from_str("deep-research"),
        status,
        conversation_url: None,
        plan,
        response,
        actions,
    })
}

/// What a deep research status means for polling: stop with the result
/// (`plan_ready`, `complete`), poll again (`running`), or fail.
pub enum DeepResearchStep {
    Done,
    Again,
    Fail(crate::error::MacosError),
}

/// Decides what a deep research status means.
pub fn deep_research_step(status: &str) -> (r: DeepResearchStep)
    ensures
        (status@ == "plan_ready"@ || status@ == "complete"@) <==> r is Done,
        status@ == "running"@ <==> r is Again,
        r matches DeepResearchStep::Fail(e) ==> e@ == crate::error::MacosErrorView::Other("unknown deep research status: "@ + status@),
{
    let v = chars_of(status);
    proof {
        reveal_strlit("plan_ready");
        reveal_strlit("complete");
        reveal_strlit("running");
        assert("running"@[0] != "plan_ready"@[0]);
        assert("running"@[0] != "complete"@[0]);
    }
    if chars_eq(v.as_slice(), chars_of("plan_ready").as_slice()) || chars_eq(v.as_slice(), chars_of("complete").as_slice()) {
        DeepResearchStep::Done
    } else if chars_eq(v.as_slice(), chars_of("running").as_slice()) {
        DeepResearchStep::Again
    } else {
        let mut m = String::from_str("unknown deep research status: ");
        m.append(status);
        DeepResearchStep::Fail(crate::error::MacosError::Other(m))
    }
}

} // verus!
