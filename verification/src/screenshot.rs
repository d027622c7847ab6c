//! Screenshots with `screencapture`: checking what the user asks for,
//! choosing the file, the arguments handed to the tool, and what is reported
//! back; and the windows that can be captured.
use vstd::prelude::*;

use crate::error::{MacosError, MacosErrorView};
use crate::text::{
    ascii_lowercase, ascii_lowercase_chars, chars_eq, chars_of, contains, decimal, join,
    push_decimal, split, split_chars, trim, trim_chars, views,
};

verus! {

broadcast use vstd::string::group_string_axioms;

/// Where screenshots go when no output path is given, under the home directory.
pub const CACHE_DIR: &'static str = ".cueward/cache/screenshots";

/// A screenshot taken: its file, when it was taken (RFC 3339), and the text
/// recognized in it when that was asked for.
#[derive(Debug, Clone, PartialEq, Eq)]
pub struct ScreenshotResult {
    pub path: String,
    pub timestamp: String,
    pub ocr_text: Option<String>,
}

/// Whether a path has a `..` component.
pub open spec fn has_parent_component(path: Seq<char>) -> bool {
    exists|i: int| 0 <= i < split(path, seq!['/']).len() && #[trigger] split(path, seq!['/'])[i] == ".."@
}

/// Why a user's output path is refused, if it is: a line break in it, or a
/// `..` component.
pub open spec fn spec_output_path_error(path: Seq<char>) -> Option<Seq<char>> {
    if path.contains('\n') || path.contains('\r') {
        Some("path must not contain control characters"@)
    } else if has_parent_component(path) {
        Some("path must not contain parent directory components"@)
    } else {
        None
    }
}

fn has_char(v: &[char], c: char) -> (r: bool)
    ensures
        r == v@.contains(c),
{
    let mut i: usize = 0;
    while i < v.len()
        invariant
            i <= v.len(),
            forall|j: int| 0 <= j < i ==> v@[j] != c,
        decreases v.len() - i,
    {
        if v[i] == c {
            return true;
        }
        i = i + 1;
    }
    false
}

/// Checks a user's output path; returns it when it is accepted.
pub fn validate_user_output_path(path: &str) -> (r: Result<String, String>)
    ensures
        match spec_output_path_error(path@) {
            Some(m) => r matches Err(e) && e@ == m,
            None => r matches Ok(p) && p@ == path@,
        },
{
    let v = chars_of(path);
    if has_char(v.as_slice(), '\n') || has_char(v.as_slice(), '\r') {
        return Err(String::from_str("path must not contain control characters"));
    }
    let sep: [char; 1] = ['/'];
    assert(sep@ =~= seq!['/']);
    let parts = split_chars(v.as_slice(), &sep);
    let ghost pv = views(parts@);
    let dots = chars_of("..");
    let mut i: usize = 0;
    while i < parts.len()
        invariant
            i <= parts.len(),
            pv == views(parts@),
            pv == split(path@, seq!['/']),
            dots@ == ".."@,
            v@ == path@,
            !path@.contains('\n'),
            !path@.contains('\r'),
            forall|j: int| 0 <= j < i ==> pv[j] != ".."@,
        decreases parts.len() - i,
    {
        assert(pv[i as int] == parts@[i as int]@);
        if crate::text::chars_eq(parts[i].as_slice(), dots.as_slice()) {
            assert(split(path@, seq!['/'])[i as int] == ".."@);
            return Err(String::from_str("path must not contain parent directory components"));
        }
        i = i + 1;
    }
    Ok(String::from_str(path))
}

/// Why a display number is refused, if it is: it must lie in `1..=10`.
pub open spec fn spec_display_error(display: Option<u32>) -> Option<Seq<char>> {
    match display {
        Some(d) => if 1 <= d <= 10 {
            None
        } else {
            Some("invalid display number "@ + decimal(d as nat) + ": must be between 1 and 10"@)
        },
        None => None,
    }
}

/// Checks a display number, if one is given.
pub fn validate_display(display: Option<u32>) -> (r: Result<(), String>)
    ensures
        match spec_display_error(display) {
            Some(m) => r matches Err(e) && e@ == m,
            None => r is Ok,
        },
{
    match display {
        Some(d) => {
            if 1 <= d && d <= 10 {
                Ok(())
            } else {
                let mut s = String::from_str("invalid display number ");
                push_decimal(&mut s, d as u128);
                s.append(": must be between 1 and 10");
                Err(s)
            }
        },
        None => Ok(()),
    }
}

/// The message for a screenshot file that is missing.
pub open spec fn missing_file_message(path: Seq<char>) -> Seq<char> {
    "screenshot file was not created at "@ + path
}

/// Reports a missing screenshot file, given whether the file exists.
pub fn screenshot_file_check(path: &str, exists: bool) -> (r: Result<(), String>)
    ensures
        exists ==> r is Ok,
        !exists ==> (r matches Err(e) && e@ == missing_file_message(path@)),
{
    if exists {
        Ok(())
    } else {
        let mut s = String::from_str("screenshot file was not created at ");
        s.append(path);
        Err(s)
    }
}

/// Whether a file exists at `path` (`std::path::Path::exists`). What is on
/// disk decides, so nothing is stated of the result.
#[verifier::external_body]
fn path_exists(path: &str) -> bool {
    std::path::Path::new(path).exists()
}

/// Checks that a screenshot file was created at `path`.
pub fn ensure_screenshot_file_exists(path: &str) -> (r: Result<(), String>)
    ensures
        r matches Err(e) ==> e@ == missing_file_message(path@),
{
    let exists = path_exists(path);
    screenshot_file_check(path, exists)
}

/// What capturing needs from the machine.
pub trait ScreenshotHost {
    /// The local time now, as `YYYYmmdd-HHMMSS` and as RFC 3339.
    fn local_timestamps(&mut self) -> (String, String);

    /// The home directory, when `HOME` is set.
    fn home_dir(&mut self) -> Option<String>;

    /// Creates a directory and its parents; the error's message when it fails.
    fn create_dir_all(&mut self, dir: &str) -> Result<(), String>;

    /// Runs `screencapture` with these arguments: whether it exited
    /// successfully and its standard error, or why it could not run.
    fn screencapture(&mut self, args: &Vec<String>) -> Result<(bool, String), String>;

    /// Whether a file exists at `path`.
    fn file_exists(&mut self, path: &str) -> bool;

    /// The lines of text recognized in an image file, or why recognition failed.
    fn recognize_text(&mut self, path: &str) -> Result<Vec<String>, String>;
}

/// A screenshot session on a host, with the record of the argument lists
/// handed to `screencapture`, of what each run reported, and of what each
/// look for the cache directory found.
pub struct Screenshots<H: ScreenshotHost> {
    pub host: H,
    pub captures: Ghost<Seq<Seq<Seq<char>>>>,
    pub reports: Ghost<Seq<CaptureReport>>,
    pub dirs: Ghost<Seq<CacheDirReport>>,
}

/// What one look for the cache directory found: no home directory; or the
/// home directory, under which the cache directory was made; or the home
/// directory and the message of the failure to make it.
pub enum CacheDirReport {
    NoHome,
    Made { home: Seq<char> },
    Failed { home: Seq<char>, message: Seq<char> },
}

/// The cache directory a look found, or the error it gives.
pub open spec fn cache_dir_result(d: CacheDirReport) -> Result<Seq<char>, MacosErrorView> {
    match d {
        CacheDirReport::NoHome => Err(MacosErrorView::Other("HOME not set"@)),
        CacheDirReport::Made { home } => Ok(home + "/"@ + CACHE_DIR@),
        CacheDirReport::Failed { home, message } => Err(cache_dir_failure(home, message)),
    }
}

/// What one run of `screencapture` reported: whether it exited successfully
/// and its standard error, or why it could not run; whether the file was then
/// there (asked only after a success); and the text lines recognized in it, or
/// why recognition failed (asked only when wanted and the file is there).
pub struct CaptureReport {
    pub outcome: Result<(bool, Seq<char>), Seq<char>>,
    pub present: bool,
    pub ocr: Option<Result<Seq<Seq<char>>, Seq<char>>>,
}

/// What a capture into `path` gives from its report: the recognized text
/// (none when not wanted, when recognition failed or found nothing), or the
/// error.
pub open spec fn spec_capture_outcome(path: Seq<char>, ocr: bool, report: CaptureReport) -> Result<Option<Seq<char>>, MacosErrorView> {
    match report.outcome {
        Err(m) => Err(MacosErrorView::Other("screencapture: "@ + m)),
        Ok((success, stderr)) => if !success {
            if trim(stderr).len() == 0 {
                Err(MacosErrorView::Other("screencapture failed"@))
            } else {
                Err(MacosErrorView::Other("screencapture failed: "@ + trim(stderr)))
            }
        } else if !report.present {
            Err(MacosErrorView::Other(missing_file_message(path)))
        } else {
            match report.ocr {
                Some(Ok(lines)) => if ocr && join(lines, seq!['\n']).len() > 0 {
                    Ok(Some(join(lines, seq!['\n'])))
                } else {
                    Ok(None)
                },
                _ => Ok(None),
            }
        },
    }
}

/// The view of optional text.
pub open spec fn opt_text(t: Option<String>) -> Option<Seq<char>> {
    match t {
        Some(x) => Some(x@),
        None => None,
    }
}

/// What a capture into `path` gives, from what `screencapture` reported,
/// whether the file was there and the lines recognized.
pub fn capture_outcome(
    path: &str,
    ocr: bool,
    outcome: Result<(bool, String), String>,
    present: bool,
    lines: Option<Result<Vec<String>, String>>,
) -> (r: Result<Option<String>, MacosError>)
    ensures
        match r {
            Ok(t) => Ok(opt_text(t)),
            Err(e) => Err(e@),
        } == spec_capture_outcome(path@, ocr, report_of(outcome, present, lines)),
{
    let stderr = match outcome {
        Ok((success, stderr)) => {
            if success {
                None
            } else {
                Some(stderr)
            }
        },
        Err(m) => {
            let mut msg = String::from_str("screencapture: ");
            msg.append(m.as_str());
            return Err(MacosError::Other(msg));
        },
    };
    match stderr {
        Some(stderr) => {
            let v = chars_of(stderr.as_str());
            let t = trim_chars(v.as_slice());
            if t.len() == 0 {
                return Err(MacosError::Other(String::from_str("screencapture failed")));
            }
            let mut msg = String::from_str("screencapture failed: ");
            let ts = crate::text::string_of(t.as_slice());
            msg.append(ts.as_str());
            return Err(MacosError::Other(msg));
        },
        None => {},
    }
    match screenshot_file_check(path, present) {
        Ok(()) => {},
        Err(m) => {
            return Err(MacosError::Other(m));
        },
    }
    match lines {
        Some(Ok(lines)) => {
            let text = join_lines(&lines);
            if ocr && chars_of(text.as_str()).len() > 0 {
                Ok(Some(text))
            } else {
                Ok(None)
            }
        },
        _ => Ok(None),
    }
}

/// The report of a run, from what the host gave.
pub open spec fn report_of(outcome: Result<(bool, String), String>, present: bool, lines: Option<Result<Vec<String>, String>>) -> CaptureReport {
    CaptureReport {
        outcome: match outcome {
            Ok((s, e)) => Ok((s, e@)),
            Err(m) => Err(m@),
        },
        present,
        ocr: match lines {
            Some(Ok(v)) => Some(Ok(string_views(v@))),
            Some(Err(m)) => Some(Err(m@)),
            None => None,
        },
    }
}

/// The views of a list of strings.
pub open spec fn string_views(v: Seq<String>) -> Seq<Seq<char>> {
    v.map_values(|s: String| s@)
}

/// The arguments of a capture into `path`: silent, then the mode's own, then the file.
pub open spec fn capture_args(mode_args: Seq<Seq<char>>, path: Seq<char>) -> Seq<Seq<char>> {
    seq!["-x"@] + mode_args + seq![path]
}

/// The file name suffix of a display capture.
pub open spec fn display_suffix(display: Option<u32>) -> Seq<char> {
    match display {
        Some(d) => "-d"@ + decimal(d as nat),
        None => Seq::empty(),
    }
}

/// The mode arguments of a display capture.
pub open spec fn display_args(display: Option<u32>) -> Seq<Seq<char>> {
    match display {
        Some(d) => seq!["-D"@, decimal(d as nat)],
        None => seq![],
    }
}

/// Where a capture goes: the user's path when one was given, else a file of
/// the cache directory `dir` named by a time stamp and the suffix.
pub open spec fn capture_target(path: Seq<char>, output: Option<Seq<char>>, suffix: Seq<char>, dir: Result<Seq<char>, MacosErrorView>) -> bool {
    match output {
        Some(p) => path == p,
        None => dir is Ok && exists|stamp: Seq<char>| path == #[trigger] cache_file(dir->Ok_0, stamp, suffix),
    }
}

/// The path and recognized text of a capture's result.
pub open spec fn shot_view(r: Result<ScreenshotResult, MacosError>) -> Result<(Seq<char>, Option<Seq<char>>), MacosErrorView> {
    match r {
        Ok(v) => Ok((v.path@, opt_text(v.ocr_text))),
        Err(e) => Err(e@),
    }
}

/// A capture into `path` ran `screencapture` once, with the silent flag, the
/// mode's arguments and the path, and `r` is what its report gives.
pub open spec fn ran_capture(
    before: Seq<Seq<Seq<char>>>,
    after: Seq<Seq<Seq<char>>>,
    reports_before: Seq<CaptureReport>,
    reports_after: Seq<CaptureReport>,
    mode_args: Seq<Seq<char>>,
    path: Seq<char>,
    ocr: bool,
    r: Result<ScreenshotResult, MacosError>,
) -> bool {
    &&& after == before.push(capture_args(mode_args, path))
    &&& reports_after.len() == reports_before.len() + 1
    &&& reports_after.drop_last() == reports_before
    &&& shot_view(r) == match spec_capture_outcome(path, ocr, reports_after.last()) {
        Ok(t) => Ok((path, t)),
        Err(e) => Err(e),
    }
}

/// What a capture does, whatever the host reports: a refused output path
/// fails with its message and runs nothing; any other given path is captured
/// into; without one, the cache directory is looked for once, and a file of
/// it is captured into, unless the look found none, which fails with what the
/// look gives and runs nothing; what a run gives follows from its report.
pub open spec fn capture_contract(
    before: Seq<Seq<Seq<char>>>,
    after: Seq<Seq<Seq<char>>>,
    reports_before: Seq<CaptureReport>,
    reports_after: Seq<CaptureReport>,
    dirs_before: Seq<CacheDirReport>,
    dirs_after: Seq<CacheDirReport>,
    output: Option<Seq<char>>,
    ocr: bool,
    mode_args: Seq<Seq<char>>,
    suffix: Seq<char>,
    r: Result<ScreenshotResult, MacosError>,
) -> bool {
    &&& (output matches Some(p) && spec_output_path_error(p) is Some) ==> (after == before && (r matches Err(e) && e@
        == MacosErrorView::Other(spec_output_path_error(output->0)->0)))
    &&& (output matches Some(p) && spec_output_path_error(p) is None) ==> after.len() == before.len() + 1
    &&& output is Some ==> dirs_after == dirs_before
    &&& output is None ==> {
        &&& dirs_after.len() == dirs_before.len() + 1
        &&& dirs_after.drop_last() == dirs_before
        &&& match cache_dir_result(dirs_after.last()) {
            Err(e) => after == before && (r matches Err(x) && x@ == e),
            Ok(_) => after.len() == before.len() + 1,
        }
    }
    &&& after.len() == before.len() ==> reports_after == reports_before && r is Err
    &&& after.len() != before.len() ==> exists|path: Seq<char>|
        #[trigger] capture_target(path, output, suffix, cache_dir_result(dirs_after.last()))
        && ran_capture(before, after, reports_before, reports_after, mode_args, path, ocr, r)
}

/// The error for a cache directory under `home` that could not be made.
pub open spec fn cache_dir_failure(home: Seq<char>, m: Seq<char>) -> MacosErrorView {
    MacosErrorView::Other("failed to create "@ + home + "/"@ + CACHE_DIR@ + ": "@ + m)
}

/// A capture file of the cache directory `dir`, named by its time stamp and
/// suffix.
pub open spec fn cache_file(dir: Seq<char>, stamp: Seq<char>, suffix: Seq<char>) -> Seq<char> {
    dir + "/"@ + stamp + suffix + ".png"@
}

impl<H: ScreenshotHost> Screenshots<H> {
    /// A session on `host` that has captured nothing yet.
    pub fn new(host: H) -> (s: Self)
        ensures
            s.captures@ == Seq::<Seq<Seq<char>>>::empty(),
            s.reports@ == Seq::<CaptureReport>::empty(),
            s.dirs@ == Seq::<CacheDirReport>::empty(),
    {
        Screenshots { host, captures: Ghost(Seq::empty()), reports: Ghost(Seq::empty()), dirs: Ghost(Seq::empty()) }
    }

    fn cache_dir(&mut self) -> (r: Result<String, MacosError>)
        ensures
            final(self).captures == old(self).captures,
            final(self).reports == old(self).reports,
            final(self).dirs@.len() == old(self).dirs@.len() + 1,
            final(self).dirs@.drop_last() == old(self).dirs@,
            match r {
                Ok(d) => cache_dir_result(final(self).dirs@.last()) == Ok::<Seq<char>, MacosErrorView>(d@),
                Err(e) => cache_dir_result(final(self).dirs@.last()) == Err::<Seq<char>, MacosErrorView>(e@),
            },
    {
        let home = match self.host.home_dir() {
            Some(h) => h,
            None => {
                self.dirs = Ghost(self.dirs@.push(CacheDirReport::NoHome));
                assert(self.dirs@.drop_last() =~= old(self).dirs@);
                return Err(MacosError::Other(String::from_str("HOME not set")));
            },
        };
        let ghost h = home@;
        let mut dir = home;
        dir.append("/");
        dir.append(CACHE_DIR);
        assert(dir@ == h + "/"@ + CACHE_DIR@);
        match self.host.create_dir_all(dir.as_str()) {
            Ok(()) => {
                self.dirs = Ghost(self.dirs@.push(CacheDirReport::Made { home: h }));
                assert(self.dirs@.drop_last() =~= old(self).dirs@);
                Ok(dir)
            },
            Err(m) => {
                self.dirs = Ghost(self.dirs@.push(CacheDirReport::Failed { home: h, message: m@ }));
                assert(self.dirs@.drop_last() =~= old(self).dirs@);
                let mut msg = String::from_str("failed to create ");
                msg.append(dir.as_str());
                msg.append(": ");
                msg.append(m.as_str());
                assert(msg@ == "failed to create "@ + h + "/"@ + CACHE_DIR@ + ": "@ + m@);
                assert(MacosErrorView::Other(msg@) == cache_dir_failure(h, m@));
                Err(MacosError::Other(msg))
            },
        }
    }

    fn capture_to_path(&mut self, ocr: bool, output: Option<&str>, suffix: &str, mode_args: Vec<String>) -> (r: Result<ScreenshotResult, MacosError>)
        ensures
            capture_contract(
                old(self).captures@,
                final(self).captures@,
                old(self).reports@,
                final(self).reports@,
                old(self).dirs@,
                final(self).dirs@,
                crate::safari::types::opt_view(output),
                ocr,
                string_views(mode_args@),
                suffix@,
                r,
            ),
    {
        let (file_stamp, timestamp) = self.host.local_timestamps();
        let path = match output {
            Some(p) => match validate_user_output_path(p) {
                Ok(p) => p,
                Err(m) => {
                    return Err(MacosError::Other(m));
                },
            },
            None => {
                let dir = match self.cache_dir() {
                    Ok(d) => d,
                    Err(e) => {
                        return Err(e);
                    },
                };
                let ghost d = dir@;
                let mut p = dir;
                p.append("/");
                p.append(file_stamp.as_str());
                p.append(suffix);
                p.append(".png");
                proof {
                    assert(cache_dir_result(self.dirs@.last()) == Ok::<Seq<char>, MacosErrorView>(d));
                    assert(p@ =~= cache_file(d, file_stamp@, suffix@));
                    assert(cache_dir_result(self.dirs@.last())->Ok_0 == d);
                    assert(p@ == cache_file(cache_dir_result(self.dirs@.last())->Ok_0, file_stamp@, suffix@));
                    assert(capture_target(p@, None, suffix@, cache_dir_result(self.dirs@.last())));
                }
                p
            },
        };
        assert(capture_target(path@, crate::safari::types::opt_view(output), suffix@, cache_dir_result(self.dirs@.last())));
        let mut args: Vec<String> = Vec::new();
        args.push(String::from_str("-x"));
        let mut i: usize = 0;
        while i < mode_args.len()
            invariant
                i <= mode_args.len(),
                string_views(args@) == seq!["-x"@] + string_views(mode_args@.take(i as int)),
            decreases mode_args.len() - i,
        {
            let ghost prev = args@;
            args.push(mode_args[i].clone());
            assert(string_views(args@) =~= string_views(prev).push(mode_args@[i as int]@));
            assert(string_views(mode_args@.take(i + 1)) =~= string_views(mode_args@.take(i as int)).push(mode_args@[i as int]@));
            i = i + 1;
        }
        assert(mode_args@.take(mode_args.len() as int) =~= mode_args@);
        let ghost before_args = args@;
        args.push(path.clone());
        assert(string_views(args@) =~= string_views(before_args).push(path@));
        assert(string_views(args@) =~= capture_args(string_views(mode_args@), path@));
        let outcome = self.host.screencapture(&args);
        self.captures = Ghost(self.captures@.push(string_views(args@)));
        let ran = match &outcome {
            Ok((success, _)) => *success,
            Err(_) => false,
        };
        let present = if ran {
            self.host.file_exists(path.as_str())
        } else {
            false
        };
        let lines = if ran && present && ocr {
            Some(self.host.recognize_text(path.as_str()))
        } else {
            None
        };
        let ghost report = report_of(outcome, present, lines);
        self.reports = Ghost(self.reports@.push(report));
        assert(self.reports@.drop_last() =~= old(self).reports@);
        let r = match capture_outcome(path.as_str(), ocr, outcome, present, lines) {
            Ok(ocr_text) => Ok(ScreenshotResult { path, timestamp, ocr_text }),
            Err(e) => Err(e),
        };
        assert(ran_capture(old(self).captures@, self.captures@, old(self).reports@, self.reports@, string_views(mode_args@), path@, ocr, r));
        r
    }
}

fn join_lines(lines: &Vec<String>) -> (r: String)
    ensures
        r@ == join(string_views(lines@), seq!['\n']),
{
    let mut parts: Vec<Vec<char>> = Vec::new();
    let mut i: usize = 0;
    while i < lines.len()
        invariant
            i <= lines.len(),
            parts.len() == i,
            forall|j: int| 0 <= j < i ==> #[trigger] parts@[j]@ == lines@[j]@,
        decreases lines.len() - i,
    {
        parts.push(chars_of(lines[i].as_str()));
        i = i + 1;
    }
    assert(views(parts@) =~= string_views(lines@));
    let sep: [char; 1] = ['\n'];
    assert(sep@ =~= seq!['\n']);
    crate::text::join_chars(&parts, &sep)
}

fn decimal_string(n: u32) -> (r: String)
    ensures
        r@ == decimal(n as nat),
{
    let mut s = String::new();
    push_decimal(&mut s, n as u128);
    s
}

/// Captures the whole screen, or display `display` (1 to 10), into `output`
/// or a timestamped file of the cache directory.
pub fn capture<H: ScreenshotHost>(shots: &mut Screenshots<H>, ocr: bool, output: Option<&str>, display: Option<u32>) -> (r: Result<ScreenshotResult, MacosError>)
    ensures
        spec_display_error(display) is Some ==> (final(shots).captures == old(shots).captures && final(shots).reports
            == old(shots).reports && final(shots).dirs == old(shots).dirs && (r matches Err(e) && e@
            == MacosErrorView::Other(spec_display_error(display)->0))),
        spec_display_error(display) is None ==> capture_contract(
            old(shots).captures@,
            final(shots).captures@,
            old(shots).reports@,
            final(shots).reports@,
            old(shots).dirs@,
            final(shots).dirs@,
            crate::safari::types::opt_view(output),
            ocr,
            display_args(display),
            display_suffix(display),
            r,
        ),
{
    match validate_display(display) {
        Ok(()) => {},
        Err(m) => {
            return Err(MacosError::Other(m));
        },
    }
    let mut suffix = String::new();
    let mut mode_args: Vec<String> = Vec::new();
    match display {
        Some(d) => {
            suffix.append("-d");
            let n = decimal_string(d);
            suffix.append(n.as_str());
            mode_args.push(String::from_str("-D"));
            mode_args.push(n);
        },
        None => {},
    }
    assert(string_views(mode_args@) =~= display_args(display));
    assert(suffix@ =~= display_suffix(display));
    shots.capture_to_path(ocr, output, suffix.as_str(), mode_args)
}

/// Captures the window `window_id` into `output` or a timestamped file of
/// the cache directory.
pub fn capture_window<H: ScreenshotHost>(shots: &mut Screenshots<H>, ocr: bool, output: Option<&str>, window_id: u32) -> (r: Result<ScreenshotResult, MacosError>)
    ensures
        capture_contract(
            old(shots).captures@,
            final(shots).captures@,
            old(shots).reports@,
            final(shots).reports@,
            old(shots).dirs@,
            final(shots).dirs@,
            crate::safari::types::opt_view(output),
            ocr,
            seq!["-l"@, decimal(window_id as nat)],
            "-w"@ + decimal(window_id as nat),
            r,
        ),
{
    let n = decimal_string(window_id);
    let mut suffix = String::from_str("-w");
    suffix.append(n.as_str());
    let mut mode_args: Vec<String> = Vec::new();
    mode_args.push(String::from_str("-l"));
    mode_args.push(n);
    assert(string_views(mode_args@) =~= seq!["-l"@, decimal(window_id as nat)]);
    shots.capture_to_path(ocr, output, suffix.as_str(), mode_args)
}

/// A window's frame on screen.
#[derive(Debug, Clone, Copy, PartialEq, Eq)]
pub struct WindowBounds {
    pub x: i32,
    pub y: i32,
    pub width: i32,
    pub height: i32,
}

/// A window that can be captured.
#[derive(Debug, Clone, PartialEq, Eq)]
pub struct CapturableWindow {
    pub window_id: u32,
    pub app: String,
    pub title: String,
    pub owner_pid: i32,
    pub is_frontmost: bool,
    pub bounds: WindowBounds,
}

/// The message for a window id that is not in the list.
pub open spec fn window_not_found_message(window_id: u32) -> Seq<char> {
    "window id not found: "@ + decimal(window_id as nat)
}

/// The first window with id `window_id`.
pub fn find_capturable_window(windows: &Vec<CapturableWindow>, window_id: u32) -> (r: Result<&CapturableWindow, MacosError>)
    ensures
        match r {
            Ok(w) => w.window_id == window_id && exists|i: int| 0 <= i < windows@.len() && windows@[i] == *w
                && forall|j: int| 0 <= j < i ==> #[trigger] windows@[j].window_id != window_id,
            Err(e) => e@ == MacosErrorView::Other(window_not_found_message(window_id))
                && forall|j: int| 0 <= j < windows@.len() ==> #[trigger] windows@[j].window_id != window_id,
        },
{
    let mut i: usize = 0;
    while i < windows.len()
        invariant
            i <= windows.len(),
            forall|j: int| 0 <= j < i ==> #[trigger] windows@[j].window_id != window_id,
        decreases windows.len() - i,
    {
        if windows[i].window_id == window_id {
            return Ok(&windows[i]);
        }
        i = i + 1;
    }
    let mut s = String::from_str("window id not found: ");
    push_decimal(&mut s, window_id as u128);
    Err(MacosError::Other(s))
}

/// The fields of a capturable window as values.
pub struct CapturableWindowView {
    pub window_id: u32,
    pub app: Seq<char>,
    pub title: Seq<char>,
    pub owner_pid: i32,
    pub is_frontmost: bool,
    pub bounds: WindowBounds,
}

impl View for CapturableWindow {
    type V = CapturableWindowView;

    open spec fn view(&self) -> CapturableWindowView {
        CapturableWindowView {
            window_id: self.window_id,
            app: self.app@,
            title: self.title@,
            owner_pid: self.owner_pid,
            is_frontmost: self.is_frontmost,
            bounds: self.bounds,
        }
    }
}

/// The views of a list of windows.
pub open spec fn window_views(s: Seq<CapturableWindow>) -> Seq<CapturableWindowView> {
    s.map_values(|w: CapturableWindow| w@)
}

/// A window as the window server lists it. The server gives an alpha value;
/// what the selection reads of it is whether it is above zero.
#[derive(Debug, Clone, PartialEq, Eq)]
pub struct WindowCatalogEntry {
    pub window_id: u32,
    pub app: String,
    pub title: String,
    pub owner_pid: i32,
    pub layer: i32,
    pub alpha_above_zero: bool,
    pub is_onscreen: bool,
    pub is_frontmost: bool,
    pub bounds: WindowBounds,
}

/// Text that is empty once trimmed.
pub open spec fn is_blank(s: Seq<char>) -> bool {
    trim(s).len() == 0
}

/// The window manager's own helper windows, which are never captured.
pub open spec fn spec_is_noise_window(app: Seq<char>, title: Seq<char>) -> bool {
    app == "WindowManager"@ && (title == "App Icon Window"@ || title == "Gesture Blocking Overlay"@)
}

/// A listed window worth capturing: named by its application and its title,
/// with an area, on screen, not transparent, in the normal layer, and not a
/// window manager helper.
pub open spec fn spec_is_capturable(e: WindowCatalogEntry) -> bool {
    &&& !is_blank(e.app@)
    &&& !is_blank(e.title@)
    &&& e.bounds.width > 0 && e.bounds.height > 0
    &&& e.is_onscreen
    &&& e.alpha_above_zero
    &&& e.layer == 0
    &&& !spec_is_noise_window(e.app@, e.title@)
}

/// The capturable window an entry describes.
pub open spec fn window_of(e: WindowCatalogEntry) -> CapturableWindowView {
    CapturableWindowView {
        window_id: e.window_id,
        app: e.app@,
        title: e.title@,
        owner_pid: e.owner_pid,
        is_frontmost: e.is_frontmost,
        bounds: e.bounds,
    }
}

/// The capturable windows among the entries, in the listed order.
pub open spec fn capturable_windows(entries: Seq<WindowCatalogEntry>) -> Seq<CapturableWindowView>
    decreases entries.len(),
{
    if entries.len() == 0 {
        Seq::empty()
    } else {
        let r = capturable_windows(entries.drop_last());
        if spec_is_capturable(entries.last()) {
            r.push(window_of(entries.last()))
        } else {
            r
        }
    }
}

/// `a` comes before `b` in code point order of their characters, a proper
/// prefix first (the order of `str`'s `cmp`).
pub open spec fn text_before(a: Seq<char>, b: Seq<char>) -> bool
    decreases a.len(),
{
    if a.len() == 0 {
        b.len() > 0
    } else if b.len() == 0 {
        false
    } else if a[0] != b[0] {
        (a[0] as u32) < (b[0] as u32)
    } else {
        text_before(a.drop_first(), b.drop_first())
    }
}

/// `a` is listed before `b`: frontmost windows first, then by application
/// name and title (ignoring ASCII case), then by window id.
pub open spec fn window_before(a: CapturableWindowView, b: CapturableWindowView) -> bool {
    let (aa, ba) = (ascii_lowercase(a.app), ascii_lowercase(b.app));
    let (at, bt) = (ascii_lowercase(a.title), ascii_lowercase(b.title));
    ||| a.is_frontmost && !b.is_frontmost
    ||| a.is_frontmost == b.is_frontmost && text_before(aa, ba)
    ||| a.is_frontmost == b.is_frontmost && aa == ba && text_before(at, bt)
    ||| a.is_frontmost == b.is_frontmost && aa == ba && at == bt && a.window_id < b.window_id
}

/// `s` with `x` placed after every element that does not come after it.
pub open spec fn insert_window(s: Seq<CapturableWindowView>, x: CapturableWindowView) -> Seq<CapturableWindowView>
    decreases s.len(),
{
    if s.len() == 0 {
        seq![x]
    } else if window_before(x, s[0]) {
        seq![x] + s
    } else {
        seq![s[0]] + insert_window(s.drop_first(), x)
    }
}

/// The windows in listing order; windows that compare equal keep their order.
pub open spec fn sort_windows(s: Seq<CapturableWindowView>) -> Seq<CapturableWindowView>
    decreases s.len(),
{
    if s.len() == 0 {
        Seq::empty()
    } else {
        insert_window(sort_windows(s.drop_last()), s.last())
    }
}

/// No window of `s` comes before one listed ahead of it.
pub open spec fn windows_in_order(s: Seq<CapturableWindowView>) -> bool {
    forall|i: int, j: int| 0 <= i < j < s.len() ==> !window_before(#[trigger] s[j], #[trigger] s[i])
}

proof fn lemma_text_before_irreflexive(a: Seq<char>)
    ensures
        !text_before(a, a),
    decreases a.len(),
{
    if a.len() > 0 {
        lemma_text_before_irreflexive(a.drop_first());
    }
}

proof fn lemma_text_before_transitive(a: Seq<char>, b: Seq<char>, c: Seq<char>)
    requires
        text_before(a, b),
        text_before(b, c),
    ensures
        text_before(a, c),
    decreases a.len(),
{
    if a.len() > 0 && b.len() > 0 && c.len() > 0 && a[0] == b[0] && b[0] == c[0] {
        lemma_text_before_transitive(a.drop_first(), b.drop_first(), c.drop_first());
    }
}

proof fn lemma_window_before_irreflexive(a: CapturableWindowView)
    ensures
        !window_before(a, a),
{
    lemma_text_before_irreflexive(ascii_lowercase(a.app));
    lemma_text_before_irreflexive(ascii_lowercase(a.title));
}

proof fn lemma_window_before_transitive(a: CapturableWindowView, b: CapturableWindowView, c: CapturableWindowView)
    requires
        window_before(a, b),
        window_before(b, c),
    ensures
        window_before(a, c),
{
    let (la, lb, lc) = (ascii_lowercase(a.app), ascii_lowercase(b.app), ascii_lowercase(c.app));
    let (ta, tb, tc) = (ascii_lowercase(a.title), ascii_lowercase(b.title), ascii_lowercase(c.title));
    if text_before(la, lb) && text_before(lb, lc) {
        lemma_text_before_transitive(la, lb, lc);
    }
    if text_before(ta, tb) && text_before(tb, tc) {
        lemma_text_before_transitive(ta, tb, tc);
    }
}

proof fn lemma_insert_window_at(s: Seq<CapturableWindowView>, x: CapturableWindowView, j: int)
    requires
        0 <= j <= s.len(),
        forall|k: int| 0 <= k < j ==> !window_before(x, #[trigger] s[k]),
        j < s.len() ==> window_before(x, s[j]),
    ensures
        insert_window(s, x) == s.insert(j, x),
    decreases j,
{
    if j == 0 {
        if s.len() == 0 {
            assert(s.insert(0, x) =~= seq![x]);
        } else {
            assert(s.insert(0, x) =~= seq![x] + s);
        }
    } else {
        let t = s.drop_first();
        assert forall|k: int| 0 <= k < j - 1 implies !window_before(x, #[trigger] t[k]) by {
            assert(t[k] == s[k + 1]);
        }
        if j - 1 < t.len() {
            assert(t[j - 1] == s[j]);
        }
        lemma_insert_window_at(t, x, j - 1);
        assert(!window_before(x, s[0]));
        assert(s.insert(j, x) =~= seq![s[0]] + t.insert(j - 1, x));
    }
}

proof fn lemma_insert_window_keeps_order(s: Seq<CapturableWindowView>, x: CapturableWindowView)
    requires
        windows_in_order(s),
    ensures
        windows_in_order(insert_window(s, x)),
        insert_window(s, x).len() == s.len() + 1,
        forall|i: int| 0 <= i < insert_window(s, x).len() ==>
            (#[trigger] insert_window(s, x)[i] == x || s.contains(insert_window(s, x)[i])),
    decreases s.len(),
{
    let r = insert_window(s, x);
    if s.len() == 0 {
    } else if window_before(x, s[0]) {
        assert forall|i: int, j: int| 0 <= i < j < r.len() implies !window_before(#[trigger] r[j], #[trigger] r[i]) by {
            if i == 0 {
                assert(r[j] == s[j - 1]);
                if window_before(s[j - 1], x) {
                    lemma_window_before_transitive(s[j - 1], x, s[0]);
                    if j - 1 == 0 {
                        lemma_window_before_irreflexive(s[0]);
                    }
                }
            } else {
                assert(r[i] == s[i - 1] && r[j] == s[j - 1]);
            }
        }
        assert forall|i: int| 0 <= i < r.len() implies (#[trigger] r[i] == x || s.contains(r[i])) by {
            if i > 0 {
                assert(r[i] == s[i - 1]);
            }
        }
    } else {
        let t = s.drop_first();
        assert forall|i: int, j: int| 0 <= i < j < t.len() implies !window_before(#[trigger] t[j], #[trigger] t[i]) by {
            assert(t[i] == s[i + 1] && t[j] == s[j + 1]);
        }
        lemma_insert_window_keeps_order(t, x);
        let u = insert_window(t, x);
        assert(r =~= seq![s[0]] + u);
        assert forall|i: int, j: int| 0 <= i < j < r.len() implies !window_before(#[trigger] r[j], #[trigger] r[i]) by {
            if i == 0 {
                assert(r[j] == u[j - 1]);
                if u[j - 1] != x {
                    assert(t.contains(u[j - 1]));
                    let k = choose|k: int| 0 <= k < t.len() && t[k] == u[j - 1];
                    assert(s[k + 1] == t[k]);
                }
            } else {
                assert(r[i] == u[i - 1] && r[j] == u[j - 1]);
            }
        }
        assert forall|i: int| 0 <= i < r.len() implies (#[trigger] r[i] == x || s.contains(r[i])) by {
            if i == 0 {
                assert(s[0] == r[0]);
            } else {
                assert(r[i] == u[i - 1]);
                if u[i - 1] != x {
                    let k = choose|k: int| 0 <= k < t.len() && t[k] == u[i - 1];
                    assert(s[k + 1] == t[k]);
                }
            }
        }
    }
}

/// The windows come out in listing order, and as many as went in.
pub proof fn lemma_sort_windows_in_order(s: Seq<CapturableWindowView>)
    ensures
        windows_in_order(sort_windows(s)),
        sort_windows(s).len() == s.len(),
    decreases s.len(),
{
    if s.len() > 0 {
        lemma_sort_windows_in_order(s.drop_last());
        lemma_insert_window_keeps_order(sort_windows(s.drop_last()), s.last());
    }
}

proof fn lemma_insert_window_multiset(s: Seq<CapturableWindowView>, x: CapturableWindowView)
    ensures
        insert_window(s, x).to_multiset() =~= s.to_multiset().insert(x),
    decreases s.len(),
{
    broadcast use vstd::multiset::group_multiset_axioms;
    broadcast use vstd::seq_lib::group_to_multiset_ensures;

    if s.len() == 0 {
        assert(insert_window(s, x) =~= Seq::<CapturableWindowView>::empty().push(x));
        assert(s =~= Seq::<CapturableWindowView>::empty());
    } else if window_before(x, s[0]) {
        vstd::seq_lib::lemma_multiset_commutative(seq![x], s);
        assert(seq![x] =~= Seq::<CapturableWindowView>::empty().push(x));
        assert(Seq::<CapturableWindowView>::empty().to_multiset() =~= vstd::multiset::Multiset::empty());
    } else {
        let t = s.drop_first();
        lemma_insert_window_multiset(t, x);
        vstd::seq_lib::lemma_multiset_commutative(seq![s[0]], t);
        vstd::seq_lib::lemma_multiset_commutative(seq![s[0]], insert_window(t, x));
        assert(s =~= seq![s[0]] + t);
    }
}

/// Listing the windows neither drops nor adds one: the sorted windows are a
/// rearrangement of the capturable ones, in listing order.
pub proof fn lemma_sort_windows_permutes(s: Seq<CapturableWindowView>)
    ensures
        sort_windows(s).to_multiset() =~= s.to_multiset(),
        windows_in_order(sort_windows(s)),
    decreases s.len(),
{
    broadcast use vstd::seq_lib::group_to_multiset_ensures;

    lemma_sort_windows_in_order(s);
    if s.len() == 0 {
        assert(sort_windows(s) =~= s);
    } else {
        lemma_sort_windows_permutes(s.drop_last());
        lemma_insert_window_multiset(sort_windows(s.drop_last()), s.last());
        assert(s =~= s.drop_last().push(s.last()));
    }
}

/// Frontmost windows are listed first: no window that is not frontmost
/// comes before a frontmost one in the selection.
pub proof fn lemma_frontmost_windows_first(entries: Seq<WindowCatalogEntry>, i: int, j: int)
    requires
        0 <= i < j < sort_windows(capturable_windows(entries)).len(),
        sort_windows(capturable_windows(entries))[j].is_frontmost,
    ensures
        sort_windows(capturable_windows(entries))[i].is_frontmost,
{
    let s = sort_windows(capturable_windows(entries));
    lemma_sort_windows_in_order(capturable_windows(entries));
    assert(!window_before(s[j], s[i]));
}

fn text_before_exec(a: &[char], b: &[char]) -> (r: bool)
    ensures
        r == text_before(a@, b@),
{
    let mut i: usize = 0;
    assert(a@.skip(0) =~= a@ && b@.skip(0) =~= b@);
    while i < a.len() && i < b.len() && a[i] == b[i]
        invariant
            i <= a.len(),
            i <= b.len(),
            text_before(a@, b@) == text_before(a@.skip(i as int), b@.skip(i as int)),
        decreases a.len() - i,
    {
        assert(a@.skip(i as int).drop_first() =~= a@.skip(i + 1));
        assert(b@.skip(i as int).drop_first() =~= b@.skip(i + 1));
        i = i + 1;
    }
    if i == a.len() {
        i < b.len()
    } else if i == b.len() {
        false
    } else {
        assert(a@.skip(i as int)[0] == a@[i as int]);
        assert(b@.skip(i as int)[0] == b@[i as int]);
        (a[i] as u32) < (b[i] as u32)
    }
}

fn window_before_exec(a: &CapturableWindow, b: &CapturableWindow) -> (r: bool)
    ensures
        r == window_before(a@, b@),
{
    if a.is_frontmost != b.is_frontmost {
        return a.is_frontmost;
    }
    let aa = ascii_lowercase_chars(chars_of(a.app.as_str()).as_slice());
    let ba = ascii_lowercase_chars(chars_of(b.app.as_str()).as_slice());
    if text_before_exec(aa.as_slice(), ba.as_slice()) {
        return true;
    }
    if !chars_eq(aa.as_slice(), ba.as_slice()) {
        return false;
    }
    let at = ascii_lowercase_chars(chars_of(a.title.as_str()).as_slice());
    let bt = ascii_lowercase_chars(chars_of(b.title.as_str()).as_slice());
    if text_before_exec(at.as_slice(), bt.as_slice()) {
        return true;
    }
    if !chars_eq(at.as_slice(), bt.as_slice()) {
        return false;
    }
    a.window_id < b.window_id
}

fn is_blank_exec(s: &str) -> (r: bool)
    ensures
        r == is_blank(s@),
{
    let v = chars_of(s);
    trim_chars(v.as_slice()).len() == 0
}

fn is_capturable(e: &WindowCatalogEntry) -> (r: bool)
    ensures
        r == spec_is_capturable(*e),
{
    if is_blank_exec(e.app.as_str()) || is_blank_exec(e.title.as_str()) {
        return false;
    }
    if !(e.bounds.width > 0 && e.bounds.height > 0 && e.is_onscreen && e.alpha_above_zero && e.layer == 0) {
        return false;
    }
    let app = chars_of(e.app.as_str());
    let title = chars_of(e.title.as_str());
    let wm = chars_of("WindowManager");
    let icon = chars_of("App Icon Window");
    let overlay = chars_of("Gesture Blocking Overlay");
    let noise = chars_eq(app.as_slice(), wm.as_slice())
        && (chars_eq(title.as_slice(), icon.as_slice()) || chars_eq(title.as_slice(), overlay.as_slice()));
    !noise
}

/// The windows worth capturing among those the window server lists, in
/// listing order: frontmost first, then by application name and title
/// (ignoring ASCII case), then by window id.
pub fn select_capturable_windows(entries: Vec<WindowCatalogEntry>) -> (r: Vec<CapturableWindow>)
    ensures
        window_views(r@) == sort_windows(capturable_windows(entries@)),
{
    let mut picked: Vec<CapturableWindow> = Vec::new();
    let mut i: usize = 0;
    while i < entries.len()
        invariant
            i <= entries@.len(),
            window_views(picked@) == capturable_windows(entries@.take(i as int)),
        decreases entries@.len() - i,
    {
        let e = &entries[i];
        proof {
            assert(entries@.take(i + 1).drop_last() =~= entries@.take(i as int));
            assert(entries@.take(i + 1).last() == entries@[i as int]);
        }
        if is_capturable(e) {
            let w = CapturableWindow {
                window_id: e.window_id,
                app: e.app.clone(),
                title: e.title.clone(),
                owner_pid: e.owner_pid,
                is_frontmost: e.is_frontmost,
                bounds: e.bounds,
            };
            let ghost before = picked@;
            picked.push(w);
            assert(window_views(picked@) =~= window_views(before).push(window_of(entries@[i as int])));
        }
        i = i + 1;
    }
    assert(entries@.take(entries@.len() as int) =~= entries@);
    let ghost all = window_views(picked@);
    let mut out: Vec<CapturableWindow> = Vec::new();
    let ghost mut done: int = 0;
    assert(all.take(0) =~= Seq::<CapturableWindowView>::empty());
    assert(window_views(out@) =~= Seq::<CapturableWindowView>::empty());
    while picked.len() > 0
        invariant
            0 <= done <= all.len(),
            window_views(picked@) == all.skip(done),
            window_views(out@) == sort_windows(all.take(done)),
        decreases picked.len(),
    {
        let ghost ov = window_views(out@);
        let ghost old_p = picked@;
        let w = picked.remove(0);
        proof {
            assert(all.skip(done).len() > 0);
            assert(window_views(old_p)[0] == w@);
            assert(all.skip(done)[0] == all[done]);
            assert(w@ == all[done]);
            assert(window_views(picked@) =~= window_views(old_p).drop_first());
            assert(window_views(picked@) =~= all.skip(done + 1));
            assert(all.take(done + 1).drop_last() =~= all.take(done));
            assert(all.take(done + 1).last() == all[done]);
        }
        let mut j: usize = 0;
        while j < out.len() && !window_before_exec(&w, &out[j])
            invariant
                j <= out@.len(),
                ov == window_views(out@),
                forall|k: int| 0 <= k < j ==> !window_before(w@, #[trigger] ov[k]),
            decreases out@.len() - j,
        {
            j = j + 1;
        }
        proof {
            lemma_insert_window_at(ov, w@, j as int);
        }
        let ghost wv = w@;
        out.insert(j, w);
        proof {
            assert(window_views(out@) =~= ov.insert(j as int, wv));
            done = done + 1;
        }
    }
    assert(all.take(done) =~= all);
    out
}

} // verus!
