//! The download engine's verified core: mirror URL construction,
//! response classification, the 100 MiB size limit (both declared and
//! streamed), and the decision taken when a destination file exists.

use vstd::prelude::*;
use crate::error::TransportKind;
use crate::text::{
    dec_rep, find_char, find_char_from, has_prefix, replace_spec, replace_str, starts_with_str,
    trim_char_spec, trim_matches_char, trim_spec, trim_str, u64_to_string,
};

verus! {

/// The byte cap on a single download.
pub const MAX_FILE_SIZE: u64 = 100 * 1024 * 1024;

/// The per-request timeout of a mirror download, in seconds.
pub const DOWNLOAD_TIMEOUT_SECS: u64 = 60;

/// How many redirect hops a mirror request follows automatically.
pub const MAX_REDIRECTS: usize = 5;

/// What one download attempt came to.
#[derive(Debug, Clone, PartialEq)]
pub enum DownloadResult {
    /// The archive was fetched and written under this filename.
    Success(String),
    /// The destination existed and was left untouched.
    Skipped(String),
    /// The attempt failed for the stated reason; siblings continue.
    Failed(String),
    /// Cancellation was observed; nothing was transferred.
    Aborted,
}

/// What to do when the destination file already exists.
#[derive(Debug, Clone, Copy, PartialEq, Eq, Structural)]
pub enum FileExistsAction {
    Skip,
    Overwrite,
    Abort,
}

/// Whether the result is a failure carrying the given reason.
pub open spec fn is_failed_with(r: DownloadResult, msg: Seq<char>) -> bool {
    r matches DownloadResult::Failed(m) && m@ == msg
}

/// Whether the result is a skip carrying the given filename.
pub open spec fn is_skipped_with(r: DownloadResult, name: Seq<char>) -> bool {
    r matches DownloadResult::Skipped(f) && f@ == name
}

/// The request URL for an archive: the mirror template with every
/// `{id}` token replaced by the decimal id.
pub fn mirror_url_for(template: &str, id: u32) -> (r: String)
    ensures
        r@ == replace_spec(template@, "{id}"@, dec_rep(id as int)),
{
    proof {
        reveal_strlit("{id}");
    }
    let digits = crate::text::u32_to_string(id);
    replace_str(template, "{id}", digits.as_str())
}

/// The failure reason the engine reports for a non-success HTTP
/// status, if any: 404 and 429 get their distinguished reasons, any
/// other non-2xx status a generic one, and a 2xx status none.
pub open spec fn spec_status_message(status: u16) -> Option<Seq<char>> {
    if status == 404 {
        Some("Not found (404)"@)
    } else if status == 429 {
        Some("Rate limited (429)"@)
    } else if !(200 <= status < 300) {
        Some("HTTP "@ + dec_rep(status as int))
    } else {
        None
    }
}

/// Classifies the HTTP status of a mirror response.
pub fn status_outcome(status: u16) -> (r: Option<DownloadResult>)
    ensures
        match r {
            Some(x) => spec_status_message(status) matches Some(m) && is_failed_with(x, m),
            None => spec_status_message(status) is None,
        },
{
    if status == 404 {
        Some(DownloadResult::Failed(String::from_str("Not found (404)")))
    } else if status == 429 {
        Some(DownloadResult::Failed(String::from_str("Rate limited (429)")))
    } else if status < 200 || status >= 300 {
        let mut m = String::from_str("HTTP ");
        let digits = u64_to_string(status as u64);
        m.append(digits.as_str());
        Some(DownloadResult::Failed(m))
    } else {
        None
    }
}

/// Classifies a transport-level failure of the mirror request:
/// timeouts and connection failures are soft per-item outcomes, and
/// any other transport failure is fatal (`None`: propagate, end the
/// run).
pub fn transport_outcome(kind: TransportKind) -> (r: Option<DownloadResult>)
    ensures
        kind == TransportKind::Timeout ==> (r matches Some(x) && is_failed_with(
            x,
            "Connection timeout"@,
        )),
        kind == TransportKind::Connect ==> (r matches Some(x) && is_failed_with(
            x,
            "Connection failed"@,
        )),
        kind == TransportKind::Other ==> r is None,
{
    match kind {
        TransportKind::Timeout => Some(DownloadResult::Failed(String::from_str(
            "Connection timeout",
        ))),
        TransportKind::Connect => Some(DownloadResult::Failed(String::from_str(
            "Connection failed",
        ))),
        TransportKind::Other => None,
    }
}

/// The reason reported when a download is over the size cap, for a
/// byte count of `n`: the count is shown in whole mebibytes.
pub open spec fn too_large_msg(n: int) -> Seq<char> {
    "File too large ("@ + dec_rep(n / 1024 / 1024) + " MB, max 100 MB)"@
}

fn too_large_string(mb: u64) -> (r: String)
    ensures
        r@ == "File too large ("@ + dec_rep(mb as int) + " MB, max 100 MB)"@,
{
    let mut m = String::from_str("File too large (");
    let digits = u64_to_string(mb);
    m.append(digits.as_str());
    m.append(" MB, max 100 MB)");
    m
}

/// Rejects a response up front when it declares a content length over
/// the cap; a missing or acceptable declared length passes.
pub fn content_length_outcome(len: Option<u64>) -> (r: Option<DownloadResult>)
    ensures
        match r {
            Some(x) => len matches Some(l) && l > MAX_FILE_SIZE && is_failed_with(
                x,
                too_large_msg(l as int),
            ),
            None => len matches Some(l) ==> l <= MAX_FILE_SIZE,
        },
{
    match len {
        Some(l) => {
            if l > MAX_FILE_SIZE {
                Some(DownloadResult::Failed(too_large_string(l / 1024 / 1024)))
            } else {
                None
            }
        },
        None => None,
    }
}

/// What the engine does after one more chunk of the body has arrived.
#[derive(Debug, Clone, PartialEq)]
pub enum StreamStep {
    /// Under the cap so far: the new cumulative byte count.
    Continue(u64),
    /// Over the cap: the partial file must be deleted and the run
    /// ended with this reason.
    TooLarge(String),
}

/// Accounts for one received chunk: the transfer continues with the
/// new cumulative count unless it has exceeded the cap, in which case
/// the engine stops, deletes the partial file and fails fatally.
pub fn stream_step(downloaded: u64, chunk_len: usize) -> (r: StreamStep)
    requires
        downloaded <= MAX_FILE_SIZE,
    ensures
        downloaded + chunk_len <= MAX_FILE_SIZE ==> r == StreamStep::Continue(
            (downloaded + chunk_len) as u64,
        ),
        downloaded + chunk_len > MAX_FILE_SIZE ==> (r matches StreamStep::TooLarge(m) && m@
            == too_large_msg(downloaded + chunk_len)),
{
    let total: u128 = (downloaded as u128) + (chunk_len as u128);
    if total > MAX_FILE_SIZE as u128 {
        let mb: u64 = (total / 1024 / 1024) as u64;
        StreamStep::TooLarge(too_large_string(mb))
    } else {
        StreamStep::Continue(total as u64)
    }
}

/// Whether the engine must ask the operator what to do: only when the
/// destination exists and neither flag has pre-configured an answer.
pub fn prompt_needed(skip_existing: bool, auto_overwrite: bool) -> (r: bool)
    ensures
        r == (!skip_existing && !auto_overwrite),
{
    !skip_existing && !auto_overwrite
}

/// The action an operator's prompt reply selects: `s`, `o` and `a`
/// (either case, surrounding whitespace ignored) select skip,
/// overwrite and abort; anything else skips.
pub open spec fn spec_choice_action(choice: Seq<char>) -> FileExistsAction {
    let t = trim_spec(choice);
    if t == seq!['s'] || t == seq!['S'] {
        FileExistsAction::Skip
    } else if t == seq!['o'] || t == seq!['O'] {
        FileExistsAction::Overwrite
    } else if t == seq!['a'] || t == seq!['A'] {
        FileExistsAction::Abort
    } else {
        FileExistsAction::Skip
    }
}

/// Whether the reply names one of the three actions at all.
pub open spec fn spec_choice_recognized(choice: Seq<char>) -> bool {
    let t = trim_spec(choice);
    t == seq!['s'] || t == seq!['S'] || t == seq!['o'] || t == seq!['O'] || t == seq!['a'] || t
        == seq!['A']
}

/// Returns whether the operator's reply names an action; an
/// unrecognized reply still skips, but is worth a notice.
pub fn choice_recognized(choice: &str) -> (r: bool)
    ensures
        r == spec_choice_recognized(choice@),
{
    let t = trim_str(choice);
    if t.unicode_len() != 1 {
        proof {
            lemma_single_char_neq(trim_spec(choice@));
        }
        return false;
    }
    let ch = t.get_char(0);
    proof {
        assert(trim_spec(choice@) =~= seq![trim_spec(choice@)[0]]);
    }
    ch == 's' || ch == 'S' || ch == 'o' || ch == 'O' || ch == 'a' || ch == 'A'
}

/// What the engine does with an existing destination file: the
/// configured flags answer first (skip wins over overwrite), and only
/// otherwise does the operator's reply decide.
pub open spec fn spec_exists_action(
    skip_existing: bool,
    auto_overwrite: bool,
    choice: Option<Seq<char>>,
) -> FileExistsAction {
    if skip_existing {
        FileExistsAction::Skip
    } else if auto_overwrite {
        FileExistsAction::Overwrite
    } else {
        match choice {
            Some(c) => spec_choice_action(c),
            None => FileExistsAction::Skip,
        }
    }
}

/// Decides what to do with an existing destination file. `choice` is
/// the operator's reply when one was asked for; an absent or
/// unrecognized reply skips the file.
pub fn determine_file_exists_action(
    skip_existing: bool,
    auto_overwrite: bool,
    choice: Option<&str>,
) -> (r: FileExistsAction)
    ensures
        r == spec_exists_action(skip_existing, auto_overwrite, choice.deep_view()),
{
    if skip_existing {
        return FileExistsAction::Skip;
    }
    if auto_overwrite {
        return FileExistsAction::Overwrite;
    }
    match choice {
        None => FileExistsAction::Skip,
        Some(c) => {
            let t = trim_str(c);
            if t.unicode_len() != 1 {
                proof {
                    lemma_single_char_neq(trim_spec(c@));
                }
                return FileExistsAction::Skip;
            }
            let ch = t.get_char(0);
            proof {
                assert(trim_spec(c@) =~= seq![trim_spec(c@)[0]]);
            }
            if ch == 's' || ch == 'S' {
                FileExistsAction::Skip
            } else if ch == 'o' || ch == 'O' {
                FileExistsAction::Overwrite
            } else if ch == 'a' || ch == 'A' {
                FileExistsAction::Abort
            } else {
                FileExistsAction::Skip
            }
        },
    }
}

/// What the engine reports for an existing destination file, if the
/// matter is settled: `Aborted` when cancellation was already
/// observed (before any prompt), `Skipped` or `Aborted` as the flags
/// or the operator's reply direct, and nothing when the file is to be
/// overwritten.
pub open spec fn spec_exists_outcome(
    cancelled: bool,
    skip_existing: bool,
    auto_overwrite: bool,
    choice: Option<Seq<char>>,
    filename: Seq<char>,
    r: Option<DownloadResult>,
) -> bool {
    if cancelled {
        r == Some(DownloadResult::Aborted)
    } else {
        match spec_exists_action(skip_existing, auto_overwrite, choice) {
            FileExistsAction::Skip => r matches Some(x) && is_skipped_with(x, filename),
            FileExistsAction::Abort => r == Some(DownloadResult::Aborted),
            FileExistsAction::Overwrite => r is None,
        }
    }
}

/// Decides the outcome for an existing destination file; `None` means
/// the engine proceeds and overwrites. With `skip_existing` set the
/// outcome is always `Skipped` with the untouched file's name.
pub fn existing_file_outcome(
    cancelled: bool,
    skip_existing: bool,
    auto_overwrite: bool,
    choice: Option<&str>,
    filename: &str,
) -> (r: Option<DownloadResult>)
    ensures
        spec_exists_outcome(
            cancelled,
            skip_existing,
            auto_overwrite,
            choice.deep_view(),
            filename@,
            r,
        ),
{
    if cancelled {
        return Some(DownloadResult::Aborted);
    }
    match determine_file_exists_action(skip_existing, auto_overwrite, choice) {
        FileExistsAction::Skip => Some(DownloadResult::Skipped(String::from_str(filename))),
        FileExistsAction::Abort => Some(DownloadResult::Aborted),
        FileExistsAction::Overwrite => None,
    }
}

proof fn lemma_single_char_neq(t: Seq<char>)
    requires
        t.len() != 1,
    ensures
        t != seq!['s'] && t != seq!['S'] && t != seq!['o'] && t != seq!['O'] && t != seq!['a'] && t
            != seq!['A'],
{
}

/// The value of the first `;`-delimited part carrying a parameter
/// with the given prefix, if any: each part is trimmed, and the value
/// loses any surrounding quotes.
pub open spec fn pcd_scan(s: Seq<char>, prefix: Seq<char>) -> Option<Seq<char>>
    decreases s.len(),
{
    let k = find_char(s, ';') as int;
    let part = trim_spec(s.take(k));
    if has_prefix(part, prefix) {
        Some(trim_char_spec(part.skip(prefix.len() as int), '"'))
    } else if k >= s.len() {
        None
    } else {
        pcd_scan(s.skip(k + 1), prefix)
    }
}

/// The filename a `Content-Disposition`-style header names, if any:
/// a UTF-8-encoded filename parameter is preferred wherever it
/// stands, and only when no part carries one does a plain
/// quoted/unquoted filename parameter decide.
pub open spec fn pcd_spec(s: Seq<char>) -> Option<Seq<char>> {
    if pcd_scan(s, "filename*=UTF-8''"@) is Some {
        pcd_scan(s, "filename*=UTF-8''"@)
    } else {
        pcd_scan(s, "filename="@)
    }
}

/// Returns the value of the first part carrying the given parameter
/// prefix.
fn scan_for_prefix(value: &str, prefix: &str) -> (r: Option<String>)
    ensures
        r.deep_view() == pcd_scan(value@, prefix@),
{
    let n = value.unicode_len();
    let mut pos: usize = 0;
    proof {
        assert(value@.skip(0) =~= value@);
    }
    loop
        invariant
            0 <= pos <= n,
            n == value@.len(),
            pcd_scan(value@, prefix@) == pcd_scan(value@.skip(pos as int), prefix@),
        decreases n - pos,
    {
        let ghost tail = value@.skip(pos as int);
        let end = find_char_from(value, pos, ';');
        proof {
            assert(tail.take(end - pos) =~= value@.subrange(pos as int, end as int));
        }
        let part_raw = value.substring_char(pos, end);
        let part = trim_str(part_raw);
        if starts_with_str(part, prefix) {
            let plen = prefix.unicode_len();
            let rest = part.substring_char(plen, part.unicode_len());
            proof {
                assert(rest@ =~= trim_spec(tail.take(end - pos)).skip(prefix@.len() as int));
            }
            let f = trim_matches_char(rest, '"');
            return Some(String::from_str(f));
        }
        if end >= n {
            return None;
        }
        proof {
            assert(tail.skip(end - pos + 1) =~= value@.skip(end + 1));
        }
        pos = end + 1;
    }
}

/// Parses a `Content-Disposition`-style header for a filename
/// parameter, preferring the UTF-8-encoded form over the plain one.
pub fn parse_content_disposition(value: &str) -> (r: Option<String>)
    ensures
        r.deep_view() == pcd_spec(value@),
{
    if let Some(f) = scan_for_prefix(value, "filename*=UTF-8''") {
        return Some(f);
    }
    scan_for_prefix(value, "filename=")
}

/// The destination filename before sanitization: what the header
/// names, or `<id>.osz` when the header is absent or names none.
pub open spec fn spec_filename_for(header: Option<Seq<char>>, id: int) -> Seq<char> {
    match header {
        Some(h) => match pcd_spec(h) {
            Some(f) => f,
            None => dec_rep(id) + ".osz"@,
        },
        None => dec_rep(id) + ".osz"@,
    }
}

/// Determines the destination filename from the response's
/// `Content-Disposition`-style header, falling back to `<id>.osz`.
pub fn extract_filename(header: Option<&str>, id: u32) -> (r: String)
    ensures
        r@ == spec_filename_for(header.deep_view(), id as int),
{
    if let Some(h) = header {
        if let Some(f) = parse_content_disposition(h) {
            return f;
        }
    }
    let mut s = crate::text::u32_to_string(id);
    s.append(".osz");
    s
}

} // verus!
