//! Saving what a conversation generated: ChatGPT and Gemini images, read from
//! the page as base64 and written to a directory, and Gemini media, which the
//! page downloads.
use base64::Engine;
use vstd::prelude::*;

use crate::error::{MacosError, MacosErrorView};
use crate::json::{json_member_str, json_str_member};
use crate::safari::ai::chatgpt::{chatgpt_image_extract_js, spec_chatgpt_image_extract_js, spec_chatgpt_image_list_js};
use crate::safari::ai::SafariAiResponseResult;
use crate::safari::eval::{json_reparse, reparse_json};
use crate::safari::ops::{
    fails_with, image_payload_failure, lemma_take_take, navigate_js, poll_chatgpt_images, run_texts, spec_navigate_js, spec_profile_js_outcome, Safari,
    SafariHost, ScriptRun,
};
use crate::safari::script::spec_build_exec_script_for_profile;
use crate::safari::types::opt_view;
use crate::text::{chars_of, decimal, parse_usize, parse_usize_chars, push_decimal, string_of, trim, trim_chars};

verus! {

broadcast use vstd::string::group_string_axioms;

/// The bytes that standard base64 (with padding) denotes, or the decoder's
/// message.
pub uninterp spec fn base64_decoded(text: Seq<char>) -> Result<Seq<u8>, Seq<char>>;

/// Decodes standard base64 with `base64::engine::general_purpose::STANDARD`.
/// The contract names the outcome.
#[verifier::external_body]
fn base64_decode(text: &str) -> (r: Result<Vec<u8>, String>)
    ensures
        match r {
            Ok(b) => base64_decoded(text@) == Ok::<Seq<u8>, Seq<char>>(b@),
            Err(m) => base64_decoded(text@) == Err::<Seq<u8>, Seq<char>>(m@),
        },
{
    base64::engine::general_purpose::STANDARD.decode(text).map_err(|e| e.to_string())
}

/// `dir` joined with the relative file name `name`, as `Path::join` does.
pub open spec fn spec_join_path(dir: Seq<char>, name: Seq<char>) -> Seq<char> {
    if dir.len() == 0 {
        name
    } else if dir.last() == '/' {
        dir + name
    } else {
        dir + "/"@ + name
    }
}

/// `dir` joined with the relative file name `name`.
pub fn join_path(dir: &str, name: &str) -> (r: String)
    ensures
        r@ == spec_join_path(dir@, name@),
{
    let d = chars_of(dir);
    let mut s = String::from_str(dir);
    if d.len() > 0 && d[d.len() - 1] != '/' {
        s.append("/");
    }
    s.append(name);
    s
}

/// What follows the last `/` of `s` (all of `s` when it has none).
pub open spec fn last_segment(s: Seq<char>) -> Seq<char>
    decreases s.len(),
{
    if s.len() == 0 {
        s
    } else if s.last() == '/' {
        Seq::empty()
    } else {
        last_segment(s.drop_last()).push(s.last())
    }
}

/// The name ChatGPT images are saved under: the last segment of the
/// conversation's URL, or `chatgpt`.
pub open spec fn spec_image_prefix(conversation_url: Option<Seq<char>>) -> Seq<char> {
    match conversation_url {
        Some(u) => if last_segment(u).len() > 0 {
            last_segment(u)
        } else {
            "chatgpt"@
        },
        None => "chatgpt"@,
    }
}

/// The name ChatGPT images are saved under.
pub fn image_prefix(conversation_url: Option<&str>) -> (r: String)
    ensures
        r@ == spec_image_prefix(opt_view(conversation_url)),
{
    match conversation_url {
        Some(u) => {
            let v = chars_of(u);
            let mut start: usize = v.len();
            assert(v@.take(v@.len() as int) =~= v@);
            assert(v@.skip(v@.len() as int) =~= Seq::<char>::empty());
            while start > 0 && v[start - 1] != '/'
                invariant
                    start <= v@.len(),
                    last_segment(v@) == last_segment(v@.take(start as int)) + v@.skip(start as int),
                decreases start,
            {
                let ghost t = v@.take(start as int);
                assert(t.drop_last() =~= v@.take(start - 1));
                assert(t.last() == v@[start - 1]);
                assert(v@.skip(start - 1) =~= seq![v@[start - 1]] + v@.skip(start as int));
                assert(last_segment(t) == last_segment(t.drop_last()).push(t.last()));
                assert(last_segment(t.drop_last()).push(t.last()) + v@.skip(start as int)
                    =~= last_segment(v@.take(start - 1)) + v@.skip(start - 1));
                start = start - 1;
            }
            proof {
                if start > 0 {
                    assert(v@.take(start as int).last() == v@[start - 1]);
                }
                assert(last_segment(v@.take(start as int)) =~= Seq::<char>::empty());
                assert(v@.take(v@.len() as int) =~= v@);
            }
            let seg = crate::text::slice_chars(v.as_slice(), start, v.len());
            assert(seg@ =~= v@.skip(start as int));
            if seg.len() > 0 {
                string_of(seg.as_slice())
            } else {
                String::from_str("chatgpt")
            }
        },
        None => String::from_str("chatgpt"),
    }
}

/// The file name of image `index` saved under `prefix`.
pub open spec fn spec_image_file_name(prefix: Seq<char>, index: usize) -> Seq<char> {
    prefix + "_image_"@ + decimal(index as nat) + ".png"@
}

/// The file name of image `index` saved under `prefix`.
pub fn image_file_name(prefix: &str, index: usize) -> (r: String)
    ensures
        r@ == spec_image_file_name(prefix@, index),
{
    let mut s = String::from_str(prefix);
    s.append("_image_");
    push_decimal(&mut s, index as u128);
    s.append(".png");
    s
}

/// What to do with image `index`, given the base64 text its script printed:
/// nothing when the text is blank, else write the decoded bytes to the file
/// named after `prefix` in `dir`; the error when the text is no base64.
pub open spec fn spec_image_step(raw: Seq<char>, index: usize, dir: Seq<char>, prefix: Seq<char>) -> Result<Option<(Seq<char>, Seq<u8>)>, MacosErrorView> {
    let t = trim(raw);
    if t.len() == 0 {
        Ok(None)
    } else {
        match base64_decoded(t) {
            Err(m) => Err(MacosErrorView::Other("base64 decode failed for image "@ + decimal(index as nat) + ": "@ + m)),
            Ok(bytes) => Ok(Some((spec_join_path(dir, spec_image_file_name(prefix, index)), bytes))),
        }
    }
}

/// The view of an image step's outcome.
pub open spec fn image_step_view(r: Result<Option<(String, Vec<u8>)>, MacosError>) -> Result<Option<(Seq<char>, Seq<u8>)>, MacosErrorView> {
    match r {
        Ok(Some((p, b))) => Ok(Some((p@, b@))),
        Ok(None) => Ok(None),
        Err(e) => Err(e@),
    }
}

/// Decides what to do with image `index` from the base64 text its script printed.
pub fn image_step(raw: &str, index: usize, dir: &str, prefix: &str) -> (r: Result<Option<(String, Vec<u8>)>, MacosError>)
    ensures
        image_step_view(r) == spec_image_step(raw@, index, dir@, prefix@),
{
    let v = chars_of(raw);
    let t = trim_chars(v.as_slice());
    if t.len() == 0 {
        return Ok(None);
    }
    let text = string_of(t.as_slice());
    match base64_decode(text.as_str()) {
        Err(m) => {
            let mut msg = String::from_str("base64 decode failed for image ");
            push_decimal(&mut msg, index as u128);
            msg.append(": ");
            msg.append(m.as_str());
            Err(MacosError::Other(msg))
        },
        Ok(bytes) => {
            let name = image_file_name(prefix, index);
            let path = join_path(dir, name.as_str());
            Ok(Some((path, bytes)))
        },
    }
}

/// The error for an output directory that could not be made.
pub open spec fn output_dir_failure(m: Seq<char>) -> MacosErrorView {
    MacosErrorView::Other("failed to create output dir: "@ + m)
}

/// The error for an image file that could not be written.
pub open spec fn image_write_failure(path: Seq<char>, m: Seq<char>) -> MacosErrorView {
    MacosErrorView::Other("failed to write "@ + path + ": "@ + m)
}

/// Makes sure the output directory exists: it is made, with its parents,
/// when it is not there.
fn ensure_output_dir<H: SafariHost>(safari: &mut Safari<H>, dir: &str) -> (r: Result<(), MacosError>)
    ensures
        final(safari).runs == old(safari).runs,
        final(safari).last_operation_at == old(safari).last_operation_at,
        final(safari).saved_files == old(safari).saved_files,
        r matches Err(e) ==> exists|m: Seq<char>| e@ == #[trigger] output_dir_failure(m),
        match r {
            Ok(()) => final(safari).file_failures == old(safari).file_failures,
            Err(e) => final(safari).file_failures@ == old(safari).file_failures@.push(e@),
        },
{
    if !safari.host.path_exists(dir) {
        match safari.host.create_dir_all(dir) {
            Ok(()) => {},
            Err(e) => {
                let mut msg = String::from_str("failed to create output dir: ");
                msg.append(e.as_str());
                assert(MacosErrorView::Other(msg@) == output_dir_failure(e@));
                proof {
                    safari.file_failures@ = safari.file_failures@.push(MacosErrorView::Other(msg@));
                }
                return Err(MacosError::Other(msg));
            },
        }
    }
    Ok(())
}

/// Writes one image step's file, if it has one, and records its path.
fn write_image<H: SafariHost>(safari: &mut Safari<H>, step: Option<(String, Vec<u8>)>, saved: &mut Vec<String>) -> (r: Result<(), MacosError>)
    ensures
        final(safari).runs == old(safari).runs,
        match step {
            Some((p, b)) => if r is Ok {
                final(safari).saved_files@ == old(safari).saved_files@.push((p@, b@))
            } else {
                final(safari).saved_files == old(safari).saved_files
            },
            None => final(safari).saved_files == old(safari).saved_files,
        },
        r is Ok ==> match step {
            Some((p, _)) => final(saved)@.len() == old(saved)@.len() + 1 && final(saved)@.last()@ == p@
                && final(saved)@.drop_last() == old(saved)@,
            None => final(saved)@ == old(saved)@,
        },
        step is None ==> r is Ok,
        r matches Err(e) ==> final(saved)@ == old(saved)@ && (step matches Some((p, _)) && exists|m: Seq<char>|
            e@ == #[trigger] image_write_failure(p@, m)),
        match r {
            Ok(()) => final(safari).file_failures == old(safari).file_failures,
            Err(e) => final(safari).file_failures@ == old(safari).file_failures@.push(e@),
        },
{
    match step {
        None => Ok(()),
        Some((path, bytes)) => {
            match safari.host.write_file(path.as_str(), bytes.as_slice()) {
                Ok(()) => {
                    safari.saved_files = Ghost(safari.saved_files@.push((path@, bytes@)));
                    let ghost before = saved@;
                    saved.push(path);
                    assert(saved@.drop_last() =~= before);
                    Ok(())
                },
                Err(e) => {
                    let mut msg = String::from_str("failed to write ");
                    msg.append(path.as_str());
                    msg.append(": ");
                    msg.append(e.as_str());
                    assert(MacosErrorView::Other(msg@) == image_write_failure(path@, e@));
                    proof {
                        safari.file_failures@ = safari.file_failures@.push(MacosErrorView::Other(msg@));
                    }
                    Err(MacosError::Other(msg))
                },
            }
        },
    }
}

/// ChatGPT image extractions: each run extracts the image at some URL, and
/// every run but the last one printed.
pub open spec fn chatgpt_extract_runs(extracts: Seq<ScriptRun>, profile_filter: Option<Seq<char>>) -> bool {
    &&& forall|j: int| 0 <= j < extracts.len() ==> exists|url: Seq<char>| (#[trigger] extracts[j]).script
        == spec_build_exec_script_for_profile(#[trigger] spec_chatgpt_image_extract_js(url), profile_filter)
    &&& forall|j: int| 0 <= j < extracts.len() - 1 ==> spec_profile_js_outcome((#[trigger] extracts[j]).outcome) is Ok
}

/// Every run printed.
pub open spec fn all_printed(runs: Seq<ScriptRun>) -> bool {
    forall|j: int| 0 <= j < runs.len() ==> spec_profile_js_outcome((#[trigger] runs[j]).outcome) is Ok
}

/// The runs after a ChatGPT conversation opened, split at `k`: image-list
/// polls before it, every one but the last printing; image extractions from
/// it on. A failed last run, an image list the host could not read, an image
/// text that is no base64, or a failed file operation is the error; a success
/// returns the paths of the files written, in order.
pub open spec fn chatgpt_saved(
    after: Seq<ScriptRun>,
    b: int,
    k: int,
    failures_before: Seq<MacosErrorView>,
    failures_after: Seq<MacosErrorView>,
    files_before: Seq<(Seq<char>, Seq<u8>)>,
    files_after: Seq<(Seq<char>, Seq<u8>)>,
    output_dir: Seq<char>,
    profile_filter: Option<Seq<char>>,
    r: Result<Vec<String>, MacosError>,
) -> bool {
    let polls = after.subrange(b + 1, k);
    let extracts = after.skip(k);
    &&& b + 1 <= k <= after.len()
    &&& forall|j: int| 0 <= j < polls.len() ==> (#[trigger] polls[j]).script == spec_build_exec_script_for_profile(
        spec_chatgpt_image_list_js(),
        profile_filter,
    )
    &&& forall|j: int| 0 <= j < polls.len() - 1 ==> spec_profile_js_outcome((#[trigger] polls[j]).outcome) is Ok
    &&& chatgpt_extract_runs(extracts, profile_filter)
    &&& after.len() > b + 1 ==> (spec_profile_js_outcome(after.last().outcome) matches Err(e) ==> fails_with(r, e))
    &&& r is Err ==> {
        ||| after.len() > b + 1 && spec_profile_js_outcome(after.last().outcome) is Err
        ||| failures_after.len() > failures_before.len()
        ||| extracts.len() == 0 && polls.len() > 0 && (spec_profile_js_outcome(polls.last().outcome) matches Ok(text) && exists|m: Seq<char>|
            fails_with(r, #[trigger] image_payload_failure(m, text)))
        ||| extracts.len() > 0 && (spec_profile_js_outcome(extracts.last().outcome) matches Ok(text) && exists|i: usize, prefix: Seq<char>|
            #[trigger] spec_image_step(text, i, output_dir, prefix) matches Err(e) && fails_with(r, e))
    }
    &&& r matches Ok(paths) ==> failures_after == failures_before && all_printed(extracts) && exists|prefix: Seq<char>|
        #[trigger] image_files(run_texts(extracts), output_dir, prefix) matches Ok(fs) && files_after == files_before + fs
            && paths@.map_values(|p: String| p@) == file_paths(fs)
}

/// How saving ChatGPT's images went, whatever the host answered: the
/// navigation run, whose failure ends it; then what `chatgpt_saved` says. A
/// failed file operation is recorded, and is the error.
pub open spec fn chatgpt_save_contract(
    before: Seq<ScriptRun>,
    after: Seq<ScriptRun>,
    failures_before: Seq<MacosErrorView>,
    failures_after: Seq<MacosErrorView>,
    files_before: Seq<(Seq<char>, Seq<u8>)>,
    files_after: Seq<(Seq<char>, Seq<u8>)>,
    conversation_url: Seq<char>,
    output_dir: Seq<char>,
    profile_filter: Option<Seq<char>>,
    r: Result<Vec<String>, MacosError>,
) -> bool {
    let b = before.len() as int;
    &&& after.len() >= b + 1
    &&& after.take(b) == before
    &&& after[b].script == spec_build_exec_script_for_profile(spec_navigate_js(conversation_url), profile_filter)
    &&& failures_after.len() >= failures_before.len()
    &&& failures_after.take(failures_before.len() as int) == failures_before
    &&& failures_after.len() > failures_before.len() ==> failures_after.len() == failures_before.len() + 1 && fails_with(
        r,
        failures_after.last(),
    )
    &&& match spec_profile_js_outcome(after[b].outcome) {
        Err(e) => fails_with(r, e) && after.len() == b + 1 && failures_after == failures_before,
        Ok(_) => exists|k: int|
            #[trigger] chatgpt_saved(after, b, k, failures_before, failures_after, files_before, files_after, output_dir, profile_filter, r),
    }
}

/// Opens the ChatGPT conversation at `conversation_url`, waits up to thirty
/// seconds for its images, and saves each as PNG in `output_dir`, named after
/// the conversation; returns the paths written.
pub fn chatgpt_save_images<H: SafariHost>(
    safari: &mut Safari<H>,
    conversation_url: &str,
    output_dir: &str,
    profile_filter: Option<&str>,
) -> (r: Result<Vec<String>, MacosError>)
    ensures
        chatgpt_save_contract(
            old(safari).runs@,
            final(safari).runs@,
            old(safari).file_failures@,
            final(safari).file_failures@,
            old(safari).saved_files@,
            final(safari).saved_files@,
            conversation_url@,
            output_dir@,
            opt_view(profile_filter),
            r,
        ),
{
    let ghost before = safari.runs@;
    let ghost fails0 = safari.file_failures@;
    let ghost files0 = safari.saved_files@;
    proof {
        assert(fails0.take(fails0.len() as int) =~= fails0);
    }
    let nav = navigate_js(conversation_url);
    let navigated = safari.run_js_for_profile(nav.as_str(), profile_filter, "safari_chatgpt_save_img_navigate");
    let ghost mid = safari.runs@;
    proof {
        assert(mid.take(before.len() as int) =~= before);
        assert(mid[before.len() as int] == mid.last());
    }
    match navigated {
        Ok(_) => {},
        Err(e) => {
            return Err(e);
        },
    }
    let polled = poll_chatgpt_images(safari, 30, 8, profile_filter);
    let ghost m2 = safari.runs@;
    let ghost k = m2.len() as int;
    proof {
        lemma_take_take(safari.runs@, mid, before);
        assert(safari.runs@[before.len() as int] == mid[before.len() as int]);
        let polls = m2.subrange(before.len() + 1int, k);
        assert forall|j: int| 0 <= j < polls.len() implies (#[trigger] polls[j]).script == spec_build_exec_script_for_profile(
            spec_chatgpt_image_list_js(),
            opt_view(profile_filter),
        ) && (j < polls.len() - 1 ==> spec_profile_js_outcome(polls[j].outcome) is Ok) by {
            assert(polls[j] == m2[before.len() + 1 + j]);
        }
        assert(m2.skip(k) =~= Seq::<ScriptRun>::empty());
        assert(run_texts(m2.skip(k)) =~= Seq::<Seq<char>>::empty());
        assert(files0 + Seq::<(Seq<char>, Seq<u8>)>::empty() =~= files0);
        if polls.len() > 0 {
            assert(polls.last() == m2.last());
        }
    }
    let result = match polled {
        Ok(r) => r,
        Err(e) => {
            let r: Result<Vec<String>, MacosError> = Err(e);
            proof {
                assert(chatgpt_saved(safari.runs@, before.len() as int, k, fails0, safari.file_failures@, files0, safari.saved_files@, output_dir@, opt_view(profile_filter), r));
            }
            return r;
        },
    };
    let mut saved: Vec<String> = Vec::new();
    let ghost mut fs: Seq<(Seq<char>, Seq<u8>)> = Seq::empty();
    proof {
        assert(saved@.map_values(|p: String| p@) =~= file_paths(fs));
    }
    if result.images.len() == 0 {
        proof {
            assert(image_files(run_texts(m2.skip(k)), output_dir@, "x"@) == Ok::<Seq<(Seq<char>, Seq<u8>)>, MacosErrorView>(fs));
            assert(chatgpt_saved(safari.runs@, before.len() as int, k, fails0, safari.file_failures@, files0, safari.saved_files@, output_dir@, opt_view(profile_filter), Ok::<Vec<String>, MacosError>(saved)));
        }
        return Ok(saved);
    }
    match ensure_output_dir(safari, output_dir) {
        Ok(()) => {},
        Err(e) => {
            let r: Result<Vec<String>, MacosError> = Err(e);
            proof {
                assert(safari.file_failures@.take(fails0.len() as int) =~= fails0);
                assert(chatgpt_saved(safari.runs@, before.len() as int, k, fails0, safari.file_failures@, files0, safari.saved_files@, output_dir@, opt_view(profile_filter), r));
            }
            return r;
        },
    }
    let prefix = match &result.conversation_url {
        Some(u) => image_prefix(Some(u.as_str())),
        None => image_prefix(None),
    };
    let mut i: usize = 0;
    while i < result.images.len()
        invariant
            i <= result.images@.len(),
            before == old(safari).runs@,
            mid.len() == before.len() + 1,
            mid.take(before.len() as int) == before,
            spec_profile_js_outcome(mid[before.len() as int].outcome) is Ok,
            mid[before.len() as int].script == spec_build_exec_script_for_profile(spec_navigate_js(conversation_url@), opt_view(profile_filter)),
            m2.len() == k,
            k >= mid.len(),
            m2.take(mid.len() as int) == mid,
            forall|j: int| 0 <= j < m2.subrange(before.len() + 1int, k).len() ==> (#[trigger] m2.subrange(before.len() + 1int, k)[j]).script
                == spec_build_exec_script_for_profile(spec_chatgpt_image_list_js(), opt_view(profile_filter)),
            forall|j: int| 0 <= j < m2.subrange(before.len() + 1int, k).len() - 1 ==> spec_profile_js_outcome(
                (#[trigger] m2.subrange(before.len() + 1int, k)[j]).outcome,
            ) is Ok,
            safari.runs@.len() == k + i,
            safari.runs@.take(k) == m2,
            chatgpt_extract_runs(safari.runs@.skip(k), opt_view(profile_filter)),
            all_printed(safari.runs@.skip(k)),
            image_files(run_texts(safari.runs@.skip(k)), output_dir@, prefix@) == Ok::<Seq<(Seq<char>, Seq<u8>)>, MacosErrorView>(fs),
            safari.saved_files@ == files0 + fs,
            files0 == old(safari).saved_files@,
            saved@.map_values(|p: String| p@) == file_paths(fs),
            safari.file_failures@ == fails0,
            fails0 == old(safari).file_failures@,
            fails0.take(fails0.len() as int) == fails0,
        decreases result.images@.len() - i,
    {
        let js = chatgpt_image_extract_js(result.images[i].url.as_str());
        let ghost prev = safari.runs@;
        let reply = safari.run_js_for_profile(js.as_str(), profile_filter, "safari_chatgpt_img_extract");
        let ghost ex = safari.runs@.skip(k);
        proof {
            assert(safari.runs@.take(prev.len() as int) =~= prev);
            lemma_take_take(safari.runs@, prev, m2);
            assert(ex.drop_last() =~= prev.skip(k));
            assert(ex.last() == safari.runs@.last());
            assert forall|j: int| 0 <= j < ex.len() implies exists|url: Seq<char>| (#[trigger] ex[j]).script
                == spec_build_exec_script_for_profile(#[trigger] spec_chatgpt_image_extract_js(url), opt_view(profile_filter)) by {
                if j < ex.len() - 1 {
                    assert(ex[j] == ex.drop_last()[j]);
                } else {
                    assert(ex[j].script == spec_build_exec_script_for_profile(spec_chatgpt_image_extract_js(result.images@[i as int].url@), opt_view(profile_filter)));
                }
            }
            assert forall|j: int| 0 <= j < ex.len() - 1 implies spec_profile_js_outcome((#[trigger] ex[j]).outcome) is Ok by {
                assert(ex[j] == ex.drop_last()[j]);
            }
            lemma_take_take(safari.runs@, m2, mid);
            lemma_take_take(safari.runs@, mid, before);
            assert(safari.runs@[before.len() as int] == mid[before.len() as int]) by {
                assert(safari.runs@.take(mid.len() as int)[before.len() as int] == safari.runs@[before.len() as int]);
            }
            assert(safari.runs@.subrange(before.len() + 1int, k) =~= m2.subrange(before.len() + 1int, k)) by {
                assert forall|j: int| before.len() + 1 <= j < k implies safari.runs@[j] == m2[j] by {
                    assert(safari.runs@.take(k)[j] == safari.runs@[j]);
                }
            }
        }
        let raw = match reply {
            Ok(raw) => raw,
            Err(e) => {
                let r: Result<Vec<String>, MacosError> = Err(e);
                proof {
                    assert(chatgpt_saved(safari.runs@, before.len() as int, k, fails0, safari.file_failures@, files0, safari.saved_files@, output_dir@, opt_view(profile_filter), r));
                }
                return r;
            },
        };
        proof {
            assert forall|j: int| 0 <= j < ex.len() implies spec_profile_js_outcome((#[trigger] ex[j]).outcome) is Ok by {
                if j < ex.len() - 1 {
                    assert(ex[j] == ex.drop_last()[j]);
                }
            }
            assert(run_texts(ex).drop_last() =~= run_texts(prev.skip(k)));
            assert(run_texts(ex).last() == raw@);
        }
        let step = match image_step(raw.as_str(), i, output_dir, prefix.as_str()) {
            Ok(s) => s,
            Err(e) => {
                let r: Result<Vec<String>, MacosError> = Err(e);
                proof {
                    assert(spec_image_step(raw@, i, output_dir@, prefix@) matches Err(x) && fails_with(r, x));
                    assert(chatgpt_saved(safari.runs@, before.len() as int, k, fails0, safari.file_failures@, files0, safari.saved_files@, output_dir@, opt_view(profile_filter), r));
                }
                return r;
            },
        };
        let ghost saved_before = saved@;
        let ghost step_view = image_step_view(Ok(step));
        match write_image(safari, step, &mut saved) {
            Ok(()) => {},
            Err(e) => {
                let r: Result<Vec<String>, MacosError> = Err(e);
                proof {
                    assert(safari.file_failures@.take(fails0.len() as int) =~= fails0);
                    assert(chatgpt_saved(safari.runs@, before.len() as int, k, fails0, safari.file_failures@, files0, safari.saved_files@, output_dir@, opt_view(profile_filter), r));
                }
                return r;
            },
        }
        proof {
            assert(run_texts(ex).drop_last() =~= run_texts(prev.skip(k)));
            match step_view {
                Ok(Some(f)) => {
                    let next = fs.push(f);
                    assert(safari.saved_files@ =~= files0 + next);
                    assert(saved@ =~= saved_before.push(saved@.last()));
                    assert(saved@.map_values(|p: String| p@) =~= saved_before.map_values(|p: String| p@).push(saved@.last()@));
                    assert(file_paths(next) =~= file_paths(fs).push(f.0));
                    assert(saved@.map_values(|p: String| p@) =~= file_paths(next));
                    fs = next;
                },
                _ => {},
            }
        }
        i = i + 1;
    }
    let r: Result<Vec<String>, MacosError> = Ok(saved);
    proof {
        lemma_take_take(safari.runs@, m2, mid);
        lemma_take_take(safari.runs@, mid, before);
        assert(safari.runs@[before.len() as int] == mid[before.len() as int]) by {
            assert(safari.runs@.take(mid.len() as int)[before.len() as int] == safari.runs@[before.len() as int]);
        }
        assert(safari.runs@.subrange(before.len() + 1int, k) =~= m2.subrange(before.len() + 1int, k)) by {
            assert forall|j: int| before.len() + 1 <= j < k implies safari.runs@[j] == m2[j] by {
                assert(safari.runs@.take(k)[j] == safari.runs@[j]);
            }
        }
        assert(chatgpt_saved(safari.runs@, before.len() as int, k, fails0, safari.file_failures@, files0, safari.saved_files@, output_dir@, opt_view(profile_filter), r));
    }
    r
}

/// The script that counts the generated images on a Gemini page.
pub const GEMINI_IMAGE_COUNT_JS: &'static str = r#"(() => {
        const imgs = document.querySelectorAll('img[alt*="AI"], img[alt*="生成"]');
        return String(imgs.length);
    })()"#;

/// The script that returns generated image `index` of a Gemini page as
/// base64 PNG, or nothing when there is no such image.
pub open spec fn spec_gemini_image_extract_js(index: usize) -> Seq<char> {
    r#"(() => {
                const imgs = document.querySelectorAll('img[alt*="AI"], img[alt*="生成"]');
                const img = imgs["#@ + decimal(index as nat) + r#"];
                if (!img) return "";
                const canvas = document.createElement("canvas");
                canvas.width = img.naturalWidth || img.width;
                canvas.height = img.naturalHeight || img.height;
                canvas.getContext("2d").drawImage(img, 0, 0);
                const dataUrl = canvas.toDataURL("image/png");
                const idx = dataUrl.indexOf(",");
                return idx >= 0 ? dataUrl.substring(idx + 1) : "";
            })()"#@
}

/// The script that returns generated image `index` of a Gemini page as base64 PNG.
pub fn gemini_image_extract_js(index: usize) -> (r: String)
    ensures
        r@ == spec_gemini_image_extract_js(index),
{
    let mut s = String::from_str(r#"(() => {
                const imgs = document.querySelectorAll('img[alt*="AI"], img[alt*="生成"]');
                const img = imgs["#);
    push_decimal(&mut s, index as u128);
    s.append(r#"];
                if (!img) return "";
                const canvas = document.createElement("canvas");
                canvas.width = img.naturalWidth || img.width;
                canvas.height = img.naturalHeight || img.height;
                canvas.getContext("2d").drawImage(img, 0, 0);
                const dataUrl = canvas.toDataURL("image/png");
                const idx = dataUrl.indexOf(",");
                return idx >= 0 ? dataUrl.substring(idx + 1) : "";
            })()"#);
    s
}

/// A path of a saved Gemini image in `dir`.
pub open spec fn is_gemini_image_path(dir: Seq<char>, path: Seq<char>) -> bool {
    exists|n: usize| path == spec_join_path(dir, #[trigger] spec_image_file_name("gemini"@, n))
}

/// How many images a count reply gives: its number, or none when it is no
/// number.
pub open spec fn spec_image_count(text: Seq<char>) -> nat {
    match parse_usize(trim(text)) {
        Some(n) => n as nat,
        None => 0,
    }
}

/// The files the texts of images 0, 1, ... give: the path and the decoded
/// bytes of each that is not blank, in order; or the error of the first that
/// is no base64.
pub open spec fn image_files(texts: Seq<Seq<char>>, dir: Seq<char>, prefix: Seq<char>) -> Result<Seq<(Seq<char>, Seq<u8>)>, MacosErrorView>
    decreases texts.len(),
{
    if texts.len() == 0 {
        Ok(Seq::empty())
    } else {
        match image_files(texts.drop_last(), dir, prefix) {
            Err(e) => Err(e),
            Ok(fs) => match spec_image_step(texts.last(), (texts.len() - 1) as usize, dir, prefix) {
                Err(e) => Err(e),
                Ok(None) => Ok(fs),
                Ok(Some(f)) => Ok(fs.push(f)),
            },
        }
    }
}

/// The paths of files.
pub open spec fn file_paths(fs: Seq<(Seq<char>, Seq<u8>)>) -> Seq<Seq<char>> {
    fs.map_values(|f: (Seq<char>, Seq<u8>)| f.0)
}

/// The images were extracted one run each, image `i` by the run at `i`, and
/// every run printed.
pub open spec fn extracted_images(extracts: Seq<ScriptRun>, profile_filter: Option<Seq<char>>) -> bool {
    forall|i: int| 0 <= i < extracts.len() ==> (#[trigger] extracts[i]).script == spec_build_exec_script_for_profile(
        spec_gemini_image_extract_js(i as usize),
        profile_filter,
    ) && spec_profile_js_outcome(extracts[i].outcome) is Ok
}

/// The image extractions so far: image `i` by the run at `i`, every run but
/// the last one printing.
pub open spec fn extract_runs(extracts: Seq<ScriptRun>, profile_filter: Option<Seq<char>>) -> bool {
    &&& forall|i: int| 0 <= i < extracts.len() ==> (#[trigger] extracts[i]).script == spec_build_exec_script_for_profile(
        spec_gemini_image_extract_js(i as usize),
        profile_filter,
    )
    &&& forall|i: int| 0 <= i < extracts.len() - 1 ==> spec_profile_js_outcome((#[trigger] extracts[i]).outcome) is Ok
}

/// How saving Gemini's images went, whatever the host answered: the
/// navigation run, then the count run, then one extraction run per image;
/// the first run that failed, the first image text that is no base64, or the
/// first file operation that failed ends it with that error; when none did,
/// it succeeds.
pub open spec fn gemini_save_contract(
    before: Seq<ScriptRun>,
    after: Seq<ScriptRun>,
    failures_before: Seq<MacosErrorView>,
    failures_after: Seq<MacosErrorView>,
    output_dir: Seq<char>,
    profile_filter: Option<Seq<char>>,
    r: Result<Vec<String>, MacosError>,
) -> bool {
    let b = before.len() as int;
    let extracts = after.skip(b + 2);
    &&& failures_after.len() >= failures_before.len()
    &&& failures_after.take(failures_before.len() as int) == failures_before
    &&& failures_after.len() > failures_before.len() ==> failures_after.len() == failures_before.len() + 1 && fails_with(
        r,
        failures_after.last(),
    )
    &&& match spec_profile_js_outcome(after[b].outcome) {
        Err(e) => fails_with(r, e) && after.len() == b + 1 && failures_after == failures_before,
        Ok(_) => {
            &&& after.len() >= b + 2
            &&& after[b + 1].script == spec_build_exec_script_for_profile(GEMINI_IMAGE_COUNT_JS@, profile_filter)
            &&& match spec_profile_js_outcome(after[b + 1].outcome) {
                Err(e) => fails_with(r, e) && after.len() == b + 2 && failures_after == failures_before,
                Ok(count) => {
                    &&& extracts.len() <= spec_image_count(count)
                    &&& extract_runs(extracts, profile_filter)
                    &&& extracts.len() > 0 ==> (spec_profile_js_outcome(extracts.last().outcome) matches Err(e) ==> fails_with(r, e))
                    &&& extracted_images(extracts, profile_filter) ==> (image_files(run_texts(extracts), output_dir, "gemini"@) matches Err(
                        e,
                    ) ==> fails_with(r, e))
                    &&& r is Err ==> !extracted_images(extracts, profile_filter) || image_files(
                        run_texts(extracts),
                        output_dir,
                        "gemini"@,
                    ) is Err || failures_after.len() > failures_before.len()
                },
            }
        },
    }
}

/// Opens the Gemini conversation at `conversation_url`, and after five
/// seconds saves its generated images as PNG in `output_dir`
/// (`gemini_image_<n>.png`); returns the paths written.
pub fn gemini_save_images<H: SafariHost>(
    safari: &mut Safari<H>,
    conversation_url: &str,
    output_dir: &str,
    profile_filter: Option<&str>,
) -> (r: Result<Vec<String>, MacosError>)
    ensures
        final(safari).runs@.len() >= old(safari).runs@.len() + 1,
        final(safari).runs@.take(old(safari).runs@.len() as int) == old(safari).runs@,
        final(safari).runs@[old(safari).runs@.len() as int].script
            == spec_build_exec_script_for_profile(spec_navigate_js(conversation_url@), opt_view(profile_filter)),
        gemini_save_contract(
            old(safari).runs@,
            final(safari).runs@,
            old(safari).file_failures@,
            final(safari).file_failures@,
            output_dir@,
            opt_view(profile_filter),
            r,
        ),
        r matches Ok(paths) ==> forall|k: int| 0 <= k < paths@.len() ==>
            is_gemini_image_path(output_dir@, #[trigger] paths@[k]@),
        r matches Ok(paths) ==> ({
            let b = old(safari).runs@.len() as int;
            let after = final(safari).runs@;
            let extracts = after.skip(b + 2);
            &&& after.len() >= b + 2
            &&& after[b + 1].script == spec_build_exec_script_for_profile(GEMINI_IMAGE_COUNT_JS@, opt_view(profile_filter))
            &&& spec_profile_js_outcome(after[b + 1].outcome) is Ok
            &&& extracts.len() == spec_image_count(spec_profile_js_outcome(after[b + 1].outcome)->Ok_0)
            &&& extracted_images(extracts, opt_view(profile_filter))
            &&& image_files(run_texts(extracts), output_dir@, "gemini"@) matches Ok(fs)
                && final(safari).saved_files@ == old(safari).saved_files@ + fs
                && paths@.map_values(|p: String| p@) == file_paths(fs)
        }),
{
    let ghost before = safari.runs@;
    let ghost fails0 = safari.file_failures@;
    proof {
        assert(fails0.take(fails0.len() as int) =~= fails0);
    }
    let nav = navigate_js(conversation_url);
    let navigated = safari.run_js_for_profile(nav.as_str(), profile_filter, "safari_gemini_save_img_navigate");
    let ghost mid = safari.runs@;
    proof {
        assert(mid.take(before.len() as int) =~= before);
    }
    match navigated {
        Ok(_) => {},
        Err(e) => {
            proof {
                assert(safari.runs@[before.len() as int] == safari.runs@.last());
            }
            return Err(e);
        },
    }
    safari.host.sleep_millis(5000);
    let counted = safari.run_js_for_profile(GEMINI_IMAGE_COUNT_JS, profile_filter, "safari_gemini_img_count");
    proof {
        assert(safari.runs@.take(mid.len() as int) =~= mid);
        lemma_take_take(safari.runs@, mid, before);
        assert(safari.runs@[before.len() as int] == mid[before.len() as int]);
    }
    proof {
        assert(safari.runs@[before.len() + 1int] == safari.runs@.last());
        assert(mid[before.len() as int] == mid.last());
    }
    let count_raw = match counted {
        Ok(c) => c,
        Err(e) => {
            return Err(e);
        },
    };
    let cv = chars_of(count_raw.as_str());
    let ct = trim_chars(cv.as_slice());
    let count: usize = match parse_usize_chars(ct.as_slice()) {
        Some(n) => n,
        None => 0,
    };
    let ghost counted_runs = safari.runs@;
    let ghost files0 = safari.saved_files@;
    assert(count as nat == spec_image_count(spec_profile_js_outcome(counted_runs[before.len() + 1int].outcome)->Ok_0));
    let mut saved: Vec<String> = Vec::new();
    let ghost mut fs: Seq<(Seq<char>, Seq<u8>)> = Seq::empty();
    proof {
        assert(counted_runs.skip(before.len() + 2int) =~= Seq::<ScriptRun>::empty());
        assert(run_texts(counted_runs.skip(before.len() + 2int)) =~= Seq::<Seq<char>>::empty());
        assert(saved@.map_values(|p: String| p@) =~= file_paths(fs));
        assert(files0 + fs =~= files0);
    }
    if count == 0 {
        return Ok(saved);
    }
    match ensure_output_dir(safari, output_dir) {
        Ok(()) => {},
        Err(e) => {
            proof {
                assert(safari.file_failures@.take(fails0.len() as int) =~= fails0);
            }
            return Err(e);
        },
    }
    let mut i: usize = 0;
    while i < count
        invariant
            i <= count,
            safari.runs@.len() >= before.len() + 1,
            safari.runs@.take(before.len() as int) == before,
            safari.runs@[before.len() as int].script
                == spec_build_exec_script_for_profile(spec_navigate_js(conversation_url@), opt_view(profile_filter)),
            before == old(safari).runs@,
            forall|k: int| 0 <= k < saved@.len() ==> is_gemini_image_path(output_dir@, #[trigger] saved@[k]@),
            counted_runs.len() == before.len() + 2,
            safari.runs@.len() == counted_runs.len() + i,
            safari.runs@.take(counted_runs.len() as int) == counted_runs,
            counted_runs[before.len() + 1int].script == spec_build_exec_script_for_profile(GEMINI_IMAGE_COUNT_JS@, opt_view(profile_filter)),
            spec_profile_js_outcome(counted_runs[before.len() + 1int].outcome) is Ok,
            count as nat == spec_image_count(spec_profile_js_outcome(counted_runs[before.len() + 1int].outcome)->Ok_0),
            extracted_images(safari.runs@.skip(counted_runs.len() as int), opt_view(profile_filter)),
            image_files(run_texts(safari.runs@.skip(counted_runs.len() as int)), output_dir@, "gemini"@) == Ok::<Seq<(Seq<char>, Seq<u8>)>, MacosErrorView>(fs),
            safari.saved_files@ == files0 + fs,
            files0 == old(safari).saved_files@,
            saved@.map_values(|p: String| p@) == file_paths(fs),
            safari.file_failures@ == fails0,
            fails0 == old(safari).file_failures@,
            fails0.take(fails0.len() as int) == fails0,
            mid.len() == before.len() + 1,
            counted_runs[before.len() as int] == mid[before.len() as int],
            spec_profile_js_outcome(mid[before.len() as int].outcome) is Ok,
        decreases count - i,
    {
        let js = gemini_image_extract_js(i);
        let ghost prev = safari.runs@;
        let reply = safari.run_js_for_profile(js.as_str(), profile_filter, "safari_gemini_img_extract");
        proof {
            assert(safari.runs@.take(prev.len() as int) =~= prev);
            lemma_take_take(safari.runs@, prev, before);
            assert(safari.runs@[before.len() as int] == prev[before.len() as int]);
        }
        proof {
            let ex0 = safari.runs@.skip(counted_runs.len() as int);
            assert(safari.runs@.take(prev.len() as int) =~= prev);
            lemma_take_take(safari.runs@, prev, counted_runs);
            assert(ex0.drop_last() =~= prev.skip(counted_runs.len() as int));
            assert(ex0.last() == safari.runs@.last());
            assert forall|j: int| 0 <= j < ex0.len() implies (#[trigger] ex0[j]).script == spec_build_exec_script_for_profile(
                spec_gemini_image_extract_js(j as usize),
                opt_view(profile_filter),
            ) by {
                if j < ex0.len() - 1 {
                    assert(ex0[j] == ex0.drop_last()[j]);
                }
            }
            assert forall|j: int| 0 <= j < ex0.len() - 1 implies spec_profile_js_outcome((#[trigger] ex0[j]).outcome) is Ok by {
                assert(ex0[j] == ex0.drop_last()[j]);
            }
            assert(safari.runs@[before.len() + 1int] == counted_runs[before.len() + 1int]);
            assert(safari.runs@[before.len() as int] == counted_runs[before.len() as int]);
        }
        let raw = match reply {
            Ok(raw) => raw,
            Err(e) => {
                proof {
                    let ex0 = safari.runs@.skip(counted_runs.len() as int);
                    assert(!extracted_images(ex0, opt_view(profile_filter))) by {
                        assert(spec_profile_js_outcome(ex0[ex0.len() - 1].outcome) is Err);
                    }
                }
                return Err(e);
            },
        };
        let ghost ex = safari.runs@.skip(counted_runs.len() as int);
        proof {
            assert(safari.runs@.take(prev.len() as int) =~= prev);
            lemma_take_take(safari.runs@, prev, counted_runs);
            assert(ex.drop_last() =~= prev.skip(counted_runs.len() as int));
            assert(ex.last() == safari.runs@.last());
            assert forall|j: int| 0 <= j < ex.len() implies (#[trigger] ex[j]).script == spec_build_exec_script_for_profile(
                spec_gemini_image_extract_js(j as usize),
                opt_view(profile_filter),
            ) && spec_profile_js_outcome(ex[j].outcome) is Ok by {
                if j < ex.len() - 1 {
                    assert(ex[j] == ex.drop_last()[j]);
                }
            }
            assert(run_texts(ex).drop_last() =~= run_texts(prev.skip(counted_runs.len() as int)));
            assert(run_texts(ex).last() == raw@);
        }
        let step = match image_step(raw.as_str(), i, output_dir, "gemini") {
            Ok(s) => s,
            Err(e) => {
                proof {
                    assert(run_texts(ex).drop_last() =~= run_texts(prev.skip(counted_runs.len() as int)));
                    assert(image_files(run_texts(ex), output_dir@, "gemini"@) == Err::<Seq<(Seq<char>, Seq<u8>)>, MacosErrorView>(e@));
                }
                return Err(e);
            },
        };
        let ghost saved_before = saved@;
        let ghost step_view = image_step_view(Ok(step));
        match write_image(safari, step, &mut saved) {
            Ok(()) => {},
            Err(e) => {
                proof {
                    assert(safari.file_failures@.take(fails0.len() as int) =~= fails0);
                }
                return Err(e);
            },
        }
        proof {
            assert forall|k: int| 0 <= k < saved@.len() implies is_gemini_image_path(output_dir@, #[trigger] saved@[k]@) by {
                if k < saved_before.len() {
                    assert(saved@[k] == saved_before[k]);
                } else {
                    assert(saved@[k]@ == spec_join_path(output_dir@, spec_image_file_name("gemini"@, i)));
                }
            }
            match step_view {
                Ok(Some(f)) => {
                    let next = fs.push(f);
                    assert(safari.saved_files@ =~= files0 + next);
                    assert(saved@ =~= saved_before.push(saved@.last()));
                    assert(saved@.map_values(|p: String| p@) =~= saved_before.map_values(|p: String| p@).push(saved@.last()@));
                    assert(file_paths(next) =~= file_paths(fs).push(f.0));
                    assert(saved@.map_values(|p: String| p@) =~= file_paths(next));
                    fs = next;
                },
                _ => {},
            }
        }
        i = i + 1;
    }
    proof {
        assert(safari.runs@.take(before.len() as int) == before);
    }
    Ok(saved)
}

/// The script that starts the download of a Gemini page's video and reports
/// its source.
pub const GEMINI_MEDIA_JS: &'static str = r#"(() => {
        const video = document.querySelector("video");
        if (!video) return JSON.stringify({ status: "error", response: "no media found" });
        const src = video.src || video.currentSrc || "";
        if (!src) return JSON.stringify({ status: "error", response: "no media source" });
        const a = document.createElement("a");
        a.href = src;
        a.download = "gemini_media.mp4";
        document.body.appendChild(a);
        a.click();
        document.body.removeChild(a);
        return JSON.stringify({ status: "downloading", response: src });
    })()"#;

/// What saving the media answers, given the JSON text the script printed:
/// its status (`error` when missing) and response (empty when missing).
pub open spec fn spec_media_outcome(raw: Seq<char>) -> Result<(Seq<char>, Seq<char>), MacosErrorView> {
    match json_reparse(raw) {
        Err(m) => Err(MacosErrorView::Other("failed to parse media result: "@ + m)),
        Ok(_) => Ok((
            match json_str_member(raw, "status"@) { Some(s) => s, None => "error"@ },
            match json_str_member(raw, "response"@) { Some(s) => s, None => Seq::empty() },
        )),
    }
}

/// Reads the media script's reply.
pub fn media_outcome(raw: &str) -> (r: Result<SafariAiResponseResult, MacosError>)
    ensures
        match spec_media_outcome(raw@) {
            Err(e) => fails_with(r, e),
            Ok((status, response)) => r matches Ok(v) && v.provider@ == "gemini"@ && v.status@ == status
                && v.response@ == response && v.conversation_url is None,
        },
{
    match reparse_json(raw) {
        Ok(_) => {},
        Err(m) => {
            let mut msg = String::from_str("failed to parse media result: ");
            msg.append(m.as_str());
            return Err(MacosError::Other(msg));
        },
    }
    let status = match json_member_str(raw, "status") {
        Some(s) => s,
        None => String::from_str("error"),
    };
    let response = match json_member_str(raw, "response") {
        Some(s) => s,
        None => String::new(),
    };
    Ok(SafariAiResponseResult { provider: String::from_str("gemini"), status, response, conversation_url: None })
}

/// Opens the Gemini conversation at `conversation_url`, and after five
/// seconds has the page download its video; reports the video's source.
pub fn gemini_save_media<H: SafariHost>(
    safari: &mut Safari<H>,
    conversation_url: &str,
    profile_filter: Option<&str>,
) -> (r: Result<SafariAiResponseResult, MacosError>)
    ensures
        final(safari).runs@.len() >= old(safari).runs@.len() + 1,
        final(safari).runs@.take(old(safari).runs@.len() as int) == old(safari).runs@,
        final(safari).runs@[old(safari).runs@.len() as int].script
            == spec_build_exec_script_for_profile(spec_navigate_js(conversation_url@), opt_view(profile_filter)),
        final(safari).runs@.len() == old(safari).runs@.len() + 2 ==>
            final(safari).runs@.last().script == spec_build_exec_script_for_profile(GEMINI_MEDIA_JS@, opt_view(profile_filter)),
{
    let ghost before = safari.runs@;
    let nav = navigate_js(conversation_url);
    let navigated = safari.run_js_for_profile(nav.as_str(), profile_filter, "safari_gemini_media_navigate");
    let ghost mid = safari.runs@;
    proof {
        assert(mid.take(before.len() as int) =~= before);
    }
    match navigated {
        Ok(_) => {},
        Err(e) => {
            return Err(e);
        },
    }
    safari.host.sleep_millis(5000);
    let reply = safari.run_js_for_profile(GEMINI_MEDIA_JS, profile_filter, "safari_gemini_media_download");
    proof {
        assert(safari.runs@.take(mid.len() as int) =~= mid);
        lemma_take_take(safari.runs@, mid, before);
        assert(safari.runs@[before.len() as int] == mid[before.len() as int]);
    }
    let raw = match reply {
        Ok(raw) => raw,
        Err(e) => {
            return Err(e);
        },
    };
    media_outcome(raw.as_str())
}

} // verus!
