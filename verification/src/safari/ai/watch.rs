//! Deciding, poll by poll, when an AI answer is complete: ChatGPT's answer
//! must read `complete` twice in a row with the same text; Gemini's text must
//! stay the same over three polls; Grok's status must read `complete`.
use vstd::prelude::*;

use crate::safari::ai::{should_skip_chatgpt_response, should_skip_gemini_response, should_skip_grok_response, spec_should_skip_response, SafariAiResponseResult};
use crate::safari::types::opt_string;
use crate::text::{chars_eq, chars_of, trim};

verus! {

broadcast use vstd::string::group_string_axioms;

/// The members of an answer-extraction reply, as the page wrote them.
#[derive(Clone, Debug, PartialEq, Eq)]
pub struct ResponsePayload {
    pub status: Option<String>,
    pub response: Option<String>,
    pub conversation_url: Option<String>,
}

/// The status a reply gives, `running` when it gives none.
pub open spec fn payload_status(p: ResponsePayload) -> Seq<char> {
    match p.status {
        Some(s) => s@,
        None => "running"@,
    }
}

/// The answer a reply gives, trimmed, empty when it gives none.
pub open spec fn payload_response(p: ResponsePayload) -> Seq<char> {
    match p.response {
        Some(s) => trim(s@),
        None => seq![],
    }
}

fn status_of(p: &ResponsePayload) -> (r: bool)
    ensures
        r == (payload_status(*p) == "complete"@),
{
    match &p.status {
        Some(s) => chars_eq(chars_of(s.as_str()).as_slice(), chars_of("complete").as_slice()),
        None => {
            assert("running"@ != "complete"@) by {
                reveal_strlit("running");
                reveal_strlit("complete");
                assert("running"@[0] != "complete"@[0]);
            }
            false
        },
    }
}

fn response_of(p: &ResponsePayload) -> (r: String)
    ensures
        r@ == payload_response(*p),
{
    match &p.response {
        Some(s) => {
            let t = crate::text::trim_chars(chars_of(s.as_str()).as_slice());
            crate::text::string_of(t.as_slice())
        },
        None => String::new(),
    }
}

fn clone_opt(o: &Option<String>) -> (r: Option<String>)
    ensures
        opt_string(r) == opt_string(*o),
{
    match o {
        Some(s) => Some(s.clone()),
        None => None,
    }
}

/// What is remembered between ChatGPT polls.
#[derive(Clone, Debug, PartialEq, Eq)]
pub struct ChatgptWatch {
    pub last_response: String,
    pub last_conversation_url: Option<String>,
    pub completion_candidate: Option<String>,
    pub matching_completion_polls: u32,
}

/// The mathematical value of a [`ChatgptWatch`].
pub struct ChatgptWatchView {
    pub last_response: Seq<char>,
    pub last_conversation_url: Option<Seq<char>>,
    pub completion_candidate: Option<Seq<char>>,
    pub matching_completion_polls: nat,
}

impl View for ChatgptWatch {
    type V = ChatgptWatchView;

    open spec fn view(&self) -> ChatgptWatchView {
        ChatgptWatchView {
            last_response: self.last_response@,
            last_conversation_url: opt_string(self.last_conversation_url),
            completion_candidate: opt_string(self.completion_candidate),
            matching_completion_polls: self.matching_completion_polls as nat,
        }
    }
}

/// A finished answer: provider, status, text and conversation URL.
pub struct AnswerView {
    pub provider: Seq<char>,
    pub status: Seq<char>,
    pub response: Seq<char>,
    pub conversation_url: Option<Seq<char>>,
}

/// The view of an answer.
pub open spec fn answer_view(a: SafariAiResponseResult) -> AnswerView {
    AnswerView {
        provider: a.provider@,
        status: a.status@,
        response: a.response@,
        conversation_url: opt_string(a.conversation_url),
    }
}

/// The view of an optional answer.
pub open spec fn opt_answer(a: Option<SafariAiResponseResult>) -> Option<AnswerView> {
    match a {
        Some(x) => Some(answer_view(x)),
        None => None,
    }
}

/// A watch that has seen nothing yet.
pub open spec fn fresh_chatgpt_watch() -> ChatgptWatchView {
    ChatgptWatchView { last_response: seq![], last_conversation_url: None, completion_candidate: None, matching_completion_polls: 0 }
}

/// One ChatGPT poll: the new watch and, when the answer is final, the answer.
/// A `complete` reply whose answer is neither empty nor the prompt counts one
/// more matching poll when it repeats the candidate, else becomes the new
/// candidate; any other reply clears the candidate. Two matching polls finish.
pub open spec fn spec_chatgpt_step(w: ChatgptWatchView, p: ResponsePayload, prompt: Seq<char>) -> (ChatgptWatchView, Option<AnswerView>) {
    let response = payload_response(p);
    let url = match p.conversation_url {
        Some(u) => Some(u@),
        None => w.last_conversation_url,
    };
    let skip = spec_should_skip_response(response, prompt);
    let last_response = if skip { w.last_response } else { response };
    let (candidate, matching) = if payload_status(p) == "complete"@ && !skip {
        if w.completion_candidate == Some(response) {
            (Some(response), w.matching_completion_polls + 1)
        } else {
            (Some(response), 1nat)
        }
    } else {
        (None, 0nat)
    };
    let next = ChatgptWatchView { last_response, last_conversation_url: url, completion_candidate: candidate, matching_completion_polls: matching };
    if matching >= 2 {
        (next, Some(AnswerView { provider: "chatgpt"@, status: "complete"@, response, conversation_url: url }))
    } else {
        (next, None)
    }
}

impl ChatgptWatch {
    /// A watch that has seen nothing yet.
    pub fn new() -> (w: ChatgptWatch)
        ensures
            w@ == fresh_chatgpt_watch(),
    {
        ChatgptWatch { last_response: String::new(), last_conversation_url: None, completion_candidate: None, matching_completion_polls: 0 }
    }

    /// Takes one poll into account; returns the answer when it is final.
    pub fn step(&mut self, p: &ResponsePayload, prompt: &str) -> (r: Option<SafariAiResponseResult>)
        requires
            old(self).matching_completion_polls < u32::MAX,
        ensures
            (final(self)@, opt_answer(r)) == spec_chatgpt_step(old(self)@, *p, prompt@),
            r is None ==> final(self).matching_completion_polls <= 1,
    {
        let response = response_of(p);
        match &p.conversation_url {
            Some(u) => {
                self.last_conversation_url = Some(u.clone());
            },
            None => {},
        }
        let skip = should_skip_chatgpt_response(response.as_str(), prompt);
        if !skip {
            self.last_response = response.clone();
        }
        if status_of(p) && !skip {
            let same = match &self.completion_candidate {
                Some(c) => chars_eq(chars_of(c.as_str()).as_slice(), chars_of(response.as_str()).as_slice()),
                None => false,
            };
            if same {
                self.matching_completion_polls = self.matching_completion_polls + 1;
            } else {
                self.completion_candidate = Some(response.clone());
                self.matching_completion_polls = 1;
            }
        } else {
            self.completion_candidate = None;
            self.matching_completion_polls = 0;
        }
        if self.matching_completion_polls >= 2 {
            Some(SafariAiResponseResult {
                provider: String::from_str("chatgpt"),
                status: String::from_str("complete"),
                response,
                conversation_url: clone_opt(&self.last_conversation_url),
            })
        } else {
            None
        }
    }
}

/// A ChatGPT answer is final only on the second `complete` poll in a row that
/// gives the same answer: from a watch whose candidate is not that answer, the
/// first such poll finishes nothing and the second finishes with it.
pub proof fn lemma_chatgpt_needs_two_matching_polls(w: ChatgptWatchView, p1: ResponsePayload, p2: ResponsePayload, prompt: Seq<char>)
    requires
        payload_status(p1) == "complete"@,
        payload_status(p2) == "complete"@,
        payload_response(p1) == payload_response(p2),
        !spec_should_skip_response(payload_response(p1), prompt),
        w.completion_candidate != Some(payload_response(p1)),
    ensures
        spec_chatgpt_step(w, p1, prompt).1 is None,
        spec_chatgpt_step(spec_chatgpt_step(w, p1, prompt).0, p2, prompt).1 matches Some(a)
            && a.response == payload_response(p2) && a.status == "complete"@,
{
}

/// A poll that is not a usable `complete` answer never finishes, and resets the count.
pub proof fn lemma_chatgpt_other_polls_reset(w: ChatgptWatchView, p: ResponsePayload, prompt: Seq<char>)
    requires
        payload_status(p) != "complete"@ || spec_should_skip_response(payload_response(p), prompt),
    ensures
        spec_chatgpt_step(w, p, prompt).1 is None,
        spec_chatgpt_step(w, p, prompt).0.matching_completion_polls == 0,
{
}

/// What is remembered between Gemini polls: the last answer and how many
/// polls in a row have repeated it.
#[derive(Clone, Debug, PartialEq, Eq)]
pub struct GeminiWatch {
    pub last_text: String,
    pub stable_count: u32,
}

/// One Gemini poll of the answer text: an empty answer or the prompt is
/// ignored; the same text as before counts once more; other text starts over.
/// Returns the new last text and count, and whether the answer is final.
pub open spec fn spec_gemini_step(last_text: Seq<char>, stable_count: nat, text: Seq<char>, prompt: Seq<char>) -> (Seq<char>, nat, bool) {
    let t = trim(text);
    if spec_should_skip_response(t, prompt) {
        (last_text, stable_count, false)
    } else if t == last_text {
        (last_text, stable_count + 1, stable_count + 1 >= 2)
    } else {
        (t, 0, false)
    }
}

impl GeminiWatch {
    /// A watch that has seen nothing yet.
    pub fn new() -> (w: GeminiWatch)
        ensures
            w.last_text@ == Seq::<char>::empty(),
            w.stable_count == 0,
    {
        GeminiWatch { last_text: String::new(), stable_count: 0 }
    }

    /// Takes one poll into account; returns whether the answer is final.
    pub fn step(&mut self, text: &str, prompt: &str) -> (done: bool)
        requires
            old(self).stable_count < u32::MAX,
        ensures
            (final(self).last_text@, final(self).stable_count as nat, done) == spec_gemini_step(
                old(self).last_text@,
                old(self).stable_count as nat,
                text@,
                prompt@,
            ),
    {
        let t = crate::text::trim_chars(chars_of(text).as_slice());
        let trimmed = crate::text::string_of(t.as_slice());
        if should_skip_gemini_response(trimmed.as_str(), prompt) {
            return false;
        }
        if chars_eq(t.as_slice(), chars_of(self.last_text.as_str()).as_slice()) {
            self.stable_count = self.stable_count + 1;
            self.stable_count >= 2
        } else {
            self.last_text = trimmed;
            self.stable_count = 0;
            false
        }
    }
}

/// A Gemini answer is final after the same text is read in three polls in a
/// row (ignored polls between them aside), starting from any other text.
pub proof fn lemma_gemini_three_equal_polls_finish(last_text: Seq<char>, stable_count: nat, text: Seq<char>, prompt: Seq<char>)
    requires
        !spec_should_skip_response(trim(text), prompt),
        trim(text) != last_text,
    ensures
        ({
            let s1 = spec_gemini_step(last_text, stable_count, text, prompt);
            let s2 = spec_gemini_step(s1.0, s1.1, text, prompt);
            let s3 = spec_gemini_step(s2.0, s2.1, text, prompt);
            !s1.2 && !s2.2 && s3.2 && s3.0 == trim(text)
        }),
{
}

/// One Grok poll: a `complete` status finishes with the answer, or with the
/// last usable answer when this one is empty or the prompt.
pub open spec fn spec_grok_step(last_response: Seq<char>, last_url: Option<Seq<char>>, p: ResponsePayload, prompt: Seq<char>) -> (Seq<char>, Option<Seq<char>>, Option<AnswerView>) {
    let response = payload_response(p);
    let url = match p.conversation_url {
        Some(u) => Some(u@),
        None => last_url,
    };
    let skip = spec_should_skip_response(response, prompt);
    let last = if skip { last_response } else { response };
    if payload_status(p) == "complete"@ {
        (last, url, Some(AnswerView { provider: "grok"@, status: "complete"@, response: last, conversation_url: url }))
    } else {
        (last, url, None)
    }
}

/// The reply's status member is `complete`.
pub open spec fn reads_complete(p: ResponsePayload) -> bool {
    p.status is Some && p.status->Some_0@ == "complete"@
}

/// The reply has an answer that, trimmed, is neither empty nor the prompt.
pub open spec fn has_usable_answer(p: ResponsePayload, prompt: Seq<char>) -> bool {
    p.response is Some && trim(p.response->Some_0@).len() > 0 && trim(p.response->Some_0@) != trim(prompt)
}

/// A Grok poll that reads `complete` with a usable answer (not empty, not the
/// prompt) finishes with that poll's answer, trimmed, whatever was read
/// before; a poll that does not read `complete` finishes nothing.
pub proof fn lemma_grok_complete_poll_answers(last_response: Seq<char>, last_url: Option<Seq<char>>, p: ResponsePayload, prompt: Seq<char>)
    ensures
        reads_complete(p) && has_usable_answer(p, prompt) ==> ({
            let a = spec_grok_step(last_response, last_url, p, prompt).2;
            a is Some && a->Some_0.provider == "grok"@ && a->Some_0.status == "complete"@ && a->Some_0.response == trim(
                p.response->Some_0@,
            )
        }),
        !reads_complete(p) ==> spec_grok_step(last_response, last_url, p, prompt).2 is None,
        reads_complete(p) && !has_usable_answer(p, prompt) ==> ({
            let a = spec_grok_step(last_response, last_url, p, prompt).2;
            a is Some && a->Some_0.response == last_response
        }),
        spec_grok_step(last_response, last_url, p, prompt).0 == if has_usable_answer(p, prompt) {
            trim(p.response->Some_0@)
        } else {
            last_response
        },
        spec_grok_step(last_response, last_url, p, prompt).2 matches Some(a) ==> a.conversation_url == if p.conversation_url is Some {
            Some(p.conversation_url->Some_0@)
        } else {
            last_url
        },
{
    if !reads_complete(p) {
        assert(payload_status(p) != "complete"@) by {
            if p.status is None {
                reveal_strlit("running");
                reveal_strlit("complete");
                assert("running"@[0] != "complete"@[0]);
            }
        }
    }
}

/// What is remembered between Grok polls.
#[derive(Clone, Debug, PartialEq, Eq)]
pub struct GrokWatch {
    pub last_response: String,
    pub last_conversation_url: Option<String>,
}

impl GrokWatch {
    /// A watch that has seen nothing yet.
    pub fn new() -> (w: GrokWatch)
        ensures
            w.last_response@ == Seq::<char>::empty(),
            w.last_conversation_url is None,
    {
        GrokWatch { last_response: String::new(), last_conversation_url: None }
    }

    /// Takes one poll of a sent prompt into account; returns the answer when
    /// it is final.
    pub fn step(&mut self, p: &ResponsePayload, prompt: &str) -> (r: Option<SafariAiResponseResult>)
        ensures
            (final(self).last_response@, opt_string(final(self).last_conversation_url), opt_answer(r)) == spec_grok_step(
                old(self).last_response@,
                opt_string(old(self).last_conversation_url),
                *p,
                prompt@,
            ),
            reads_complete(*p) && has_usable_answer(*p, prompt@) ==> r is Some && r->Some_0.provider@ == "grok"@
                && r->Some_0.status@ == "complete"@ && r->Some_0.response@ == trim(p.response->Some_0@),
            !reads_complete(*p) ==> r is None,
    {
        proof {
            lemma_grok_complete_poll_answers(self.last_response@, opt_string(self.last_conversation_url), *p, prompt@);
        }
        let response = response_of(p);
        match &p.conversation_url {
            Some(u) => {
                self.last_conversation_url = Some(u.clone());
            },
            None => {},
        }
        if !should_skip_grok_response(response.as_str(), prompt) {
            self.last_response = response;
        }
        if status_of(p) {
            Some(SafariAiResponseResult {
                provider: String::from_str("grok"),
                status: String::from_str("complete"),
                response: self.last_response.clone(),
                conversation_url: clone_opt(&self.last_conversation_url),
            })
        } else {
            None
        }
    }
}

/// One poll while reading a Grok conversation: a `complete` status with a
/// non-empty answer finishes with it.
pub open spec fn spec_grok_read_step(last_response: Seq<char>, last_url: Option<Seq<char>>, p: ResponsePayload) -> (Seq<char>, Option<Seq<char>>, Option<AnswerView>) {
    let response = payload_response(p);
    let url = match p.conversation_url {
        Some(u) => Some(u@),
        None => last_url,
    };
    let last = if response.len() > 0 { response } else { last_response };
    if payload_status(p) == "complete"@ && response.len() > 0 {
        (last, url, Some(AnswerView { provider: "grok"@, status: "complete"@, response, conversation_url: url }))
    } else {
        (last, url, None)
    }
}

impl GrokWatch {
    /// Takes one poll of a conversation being read into account; returns the
    /// answer when it is final.
    pub fn read_step(&mut self, p: &ResponsePayload) -> (r: Option<SafariAiResponseResult>)
        ensures
            (final(self).last_response@, opt_string(final(self).last_conversation_url), opt_answer(r)) == spec_grok_read_step(
                old(self).last_response@,
                opt_string(old(self).last_conversation_url),
                *p,
            ),
    {
        let response = response_of(p);
        match &p.conversation_url {
            Some(u) => {
                self.last_conversation_url = Some(u.clone());
            },
            None => {},
        }
        let nonempty = chars_of(response.as_str()).len() > 0;
        if nonempty {
            self.last_response = response.clone();
        }
        if status_of(p) && nonempty {
            Some(SafariAiResponseResult {
                provider: String::from_str("grok"),
                status: String::from_str("complete"),
                response,
                conversation_url: clone_opt(&self.last_conversation_url),
            })
        } else {
            None
        }
    }
}

} // verus!
