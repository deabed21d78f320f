//! Planning the transfer of one file, and of the files of one directory.

use vstd::prelude::*;
use crate::stats::{advanced, not_below, ScrapingStats, StatsSnapshot};
use crate::text::{
    after_last, after_last_chars, from_chars, lemma_after_last_holds_none, lines, parse_u64,
    parsed_u64, skip_chars, split_lines, split_words, starts_with_chars, strings_view, to_chars,
    trim_end, trim_end_chars, words,
};

verus! {

/// The size above which a direct transfer shows its progress: 50 MiB.
pub const PROGRESS_THRESHOLD: u64 = 52_428_800;

/// One file to fetch: where from, where to, and under which name it is shown.
#[derive(Clone, Debug)]
pub struct DownloadTask {
    pub url: String,
    pub file_path: String,
    pub file_name: String,
}

/// A download task as contracts see it.
pub struct DownloadTaskView {
    pub url: Seq<char>,
    pub file_path: Seq<char>,
    pub file_name: Seq<char>,
}

impl View for DownloadTask {
    type V = DownloadTaskView;

    open spec fn view(&self) -> DownloadTaskView {
        DownloadTaskView { url: self.url@, file_path: self.file_path@, file_name: self.file_name@ }
    }
}

/// The view of a list of tasks.
pub open spec fn tasks_view(tasks: Seq<DownloadTask>) -> Seq<DownloadTaskView> {
    Seq::new(tasks.len(), |i: int| tasks[i]@)
}

/// How files are transferred in this run.
#[derive(Clone, Copy, Debug, PartialEq, Eq, Structural)]
pub struct TransferSettings {
    /// Whether the external download manager may be used.
    pub use_external: bool,
    /// The size in bytes up to which a file is fetched directly although the
    /// external download manager may be used; 0 sends every file to it.
    pub external_threshold: u64,
}

/// The way one file is transferred.
#[derive(Clone, Copy, Debug, PartialEq, Eq, Structural)]
pub enum Transport {
    /// A direct, streamed transfer.
    Direct,
    /// The external download manager.
    External,
}

/// What to do first about one file.
#[derive(Clone, Copy, Debug, PartialEq, Eq, Structural)]
pub enum Plan {
    /// The file is there and complete: issue no request.
    Skip,
    /// Ask the remote side for the file's size, then choose the transport.
    ProbeSize,
    /// Transfer the file in this way. `resuming` says that a control record
    /// marks the file as partly transferred, so that the transfer goes on
    /// with what is there.
    Transfer { transport: Transport, resuming: bool },
}

/// Whether the file counts as partly transferred: the external download
/// manager is in use and left a control record beside it.
pub open spec fn is_resumable(settings: TransferSettings, control_record_exists: bool) -> bool {
    settings.use_external && control_record_exists
}

/// The first step for a file, from what is on disk and how the run is set up.
pub open spec fn planned(
    settings: TransferSettings,
    destination_exists: bool,
    control_record_exists: bool,
) -> Plan {
    if is_resumable(settings, control_record_exists) {
        Plan::Transfer { transport: Transport::External, resuming: true }
    } else if destination_exists {
        Plan::Skip
    } else if !settings.use_external {
        Plan::Transfer { transport: Transport::Direct, resuming: false }
    } else if settings.external_threshold == 0 {
        Plan::Transfer { transport: Transport::External, resuming: false }
    } else {
        Plan::ProbeSize
    }
}

/// Decides the first step for one file.
///
/// A file that exists is skipped unless a control record marks it as partly
/// transferred. A request is planned in every other case.
pub fn plan_transfer(
    settings: TransferSettings,
    destination_exists: bool,
    control_record_exists: bool,
) -> (plan: Plan)
    ensures
        plan == planned(settings, destination_exists, control_record_exists),
        destination_exists && !control_record_exists ==> plan == Plan::Skip,
        !destination_exists ==> plan != Plan::Skip,
        (plan == Plan::Skip) == (destination_exists && !is_resumable(
            settings,
            control_record_exists,
        )),
{
    if settings.use_external && control_record_exists {
        Plan::Transfer { transport: Transport::External, resuming: true }
    } else if destination_exists {
        Plan::Skip
    } else if !settings.use_external {
        Plan::Transfer { transport: Transport::Direct, resuming: false }
    } else if settings.external_threshold == 0 {
        Plan::Transfer { transport: Transport::External, resuming: false }
    } else {
        Plan::ProbeSize
    }
}

/// The transport for a file whose size was asked for: the external download
/// manager where the remote side gave a length that reads as a number above
/// the threshold, a direct transfer in every other case.
pub open spec fn transport_for(threshold: u64, content_length: Option<Seq<char>>) -> Transport {
    match content_length {
        Some(text) => match parsed_u64(text) {
            Some(length) => if length > threshold {
                Transport::External
            } else {
                Transport::Direct
            },
            None => Transport::Direct,
        },
        None => Transport::Direct,
    }
}

/// Chooses the transport after the size probe. `content_length` is the text
/// of the length that the remote side gave, or `None` where the probe failed
/// or gave none.
pub fn choose_transport(threshold: u64, content_length: Option<&str>) -> (transport: Transport)
    ensures
        transport == transport_for(
            threshold,
            match content_length {
                Some(text) => Some(text@),
                None => None,
            },
        ),
{
    match content_length {
        Some(text) => match parse_u64(text) {
            Some(length) => if length > threshold {
                Transport::External
            } else {
                Transport::Direct
            },
            None => Transport::Direct,
        },
        None => Transport::Direct,
    }
}

/// Whether a direct transfer of a file of this size shows its progress. A
/// size that the remote side did not give counts as zero.
pub fn shows_progress(total_size: Option<u64>) -> (shown: bool)
    ensures
        shown == match total_size {
            Some(size) => size > PROGRESS_THRESHOLD,
            None => false,
        },
{
    match total_size {
        Some(size) => size > PROGRESS_THRESHOLD,
        None => false,
    }
}

/// The number of transfers of one directory that may run at a time: the
/// configured number, or all of them where it is 0.
pub fn effective_concurrency(configured: usize, batch_len: usize) -> (limit: usize)
    ensures
        limit == if configured == 0 {
            batch_len
        } else {
            configured
        },
{
    if configured == 0 {
        batch_len
    } else {
        configured
    }
}

/// The options that the external download manager gets where none are configured.
pub open spec fn default_external_options() -> Seq<char> {
    "-x 4 -s 4"@
}

/// The arguments that every call of the external download manager begins
/// with: go on with a partial file, never rename, and store into `directory`
/// under `file_name`.
pub open spec fn external_target_args(directory: Seq<char>, file_name: Seq<char>) -> Seq<
    Seq<char>,
> {
    seq!["-c"@, "--auto-file-renaming=false"@, "-d"@, directory, "-o"@, file_name]
}

/// The arguments of a download: the target, then the words of the options,
/// then the address. Where no options are configured the default ones are used.
pub open spec fn download_args(
    directory: Seq<char>,
    file_name: Seq<char>,
    url: Seq<char>,
    options: Option<Seq<char>>,
) -> Seq<Seq<char>> {
    let effective = match options {
        Some(text) => text,
        None => default_external_options(),
    };
    external_target_args(directory, file_name) + words(effective) + seq![url]
}

/// The arguments of a resumed download: the target, then the address, then
/// the words of the configured options, if any.
pub open spec fn resume_args(
    directory: Seq<char>,
    file_name: Seq<char>,
    url: Seq<char>,
    options: Option<Seq<char>>,
) -> Seq<Seq<char>> {
    let extra = match options {
        Some(text) => words(text),
        None => Seq::empty(),
    };
    external_target_args(directory, file_name).push(url) + extra
}

/// `options` as contracts see it.
pub open spec fn option_text(options: Option<&str>) -> Option<Seq<char>> {
    match options {
        Some(text) => Some(text@),
        None => None,
    }
}

fn target_args(directory: &str, file_name: &str) -> (args: Vec<String>)
    ensures
        strings_view(args@) == external_target_args(directory@, file_name@),
{
    let mut args: Vec<String> = Vec::new();
    args.push(String::from_str("-c"));
    args.push(String::from_str("--auto-file-renaming=false"));
    args.push(String::from_str("-d"));
    args.push(String::from_str(directory));
    args.push(String::from_str("-o"));
    args.push(String::from_str(file_name));
    assert(strings_view(args@) =~= external_target_args(directory@, file_name@));
    args
}

fn append_strings(list: &mut Vec<String>, more: Vec<String>)
    ensures
        strings_view(final(list)@) == strings_view(old(list)@) + strings_view(more@),
{
    let mut more = more;
    let ghost before = list@;
    let ghost added = more@;
    list.append(&mut more);
    assert(strings_view(list@) =~= strings_view(before) + strings_view(added));
}

/// The arguments with which the external download manager fetches `url`
/// into `directory` under `file_name`.
pub fn external_download_args(
    directory: &str,
    file_name: &str,
    url: &str,
    options: Option<&str>,
) -> (args: Vec<String>)
    ensures
        strings_view(args@) == download_args(directory@, file_name@, url@, option_text(options)),
{
    let mut args = target_args(directory, file_name);
    let extra = match options {
        Some(text) => split_words(text),
        None => split_words("-x 4 -s 4"),
    };
    append_strings(&mut args, extra);
    let ghost before = strings_view(args@);
    args.push(String::from_str(url));
    assert(strings_view(args@) =~= before + seq![url@]);
    args
}

/// The arguments with which the external download manager goes on with the
/// partial file `file_name` in `directory`, fetched from `url`.
pub fn external_resume_args(
    directory: &str,
    file_name: &str,
    url: &str,
    options: Option<&str>,
) -> (args: Vec<String>)
    ensures
        strings_view(args@) == resume_args(directory@, file_name@, url@, option_text(options)),
{
    let mut args = target_args(directory, file_name);
    let ghost before = strings_view(args@);
    args.push(String::from_str(url));
    assert(strings_view(args@) =~= before.push(url@));
    match options {
        Some(text) => {
            let extra = split_words(text);
            append_strings(&mut args, extra);
        },
        None => {
            assert(strings_view(args@) + Seq::<Seq<char>>::empty() =~= strings_view(args@));
        },
    }
    args
}

/// What a line of a control record begins with where it gives the source address.
pub open spec fn uri_marker() -> Seq<char> {
    seq!['u', 'r', 'i', '=']
}

/// The source address that the first of `record_lines` to begin with `uri=`
/// gives: what follows the marker on that line.
pub open spec fn first_uri(record_lines: Seq<Seq<char>>) -> Option<Seq<char>>
    decreases record_lines.len(),
{
    if record_lines.len() == 0 {
        None
    } else if uri_marker().is_prefix_of(record_lines[0]) {
        Some(record_lines[0].skip(4))
    } else {
        first_uri(record_lines.skip(1))
    }
}

/// The source address that a control record with this content names, if it
/// names one.
pub fn control_record_uri(content: &str) -> (uri: Option<String>)
    ensures
        match uri {
            Some(address) => first_uri(lines(content@)) == Some(address@),
            None => first_uri(lines(content@)) is None,
        },
{
    let marker = to_chars("uri=");
    proof {
        reveal_strlit("uri=");
        assert(marker@ =~= uri_marker());
    }
    let record_lines = split_lines(content);
    let ghost all = strings_view(record_lines@);
    let mut i: usize = 0;
    assert(all.skip(0) =~= all);
    while i < record_lines.len()
        invariant
            i <= record_lines.len(),
            all == strings_view(record_lines@),
            all == lines(content@),
            marker@ == uri_marker(),
            first_uri(all) == first_uri(all.skip(i as int)),
        decreases record_lines.len() - i,
    {
        let line = to_chars(record_lines[i].as_str());
        assert(all.skip(i as int)[0] == line@);
        assert(all.skip(i as int).skip(1) =~= all.skip(i + 1));
        if starts_with_chars(&line, &marker) {
            let address = skip_chars(&line, 4);
            return Some(from_chars(&address));
        }
        i += 1;
    }
    None
}

/// What the name of a control record ends in.
pub open spec fn control_suffix() -> Seq<char> {
    seq!['.', 'a', 'r', 'i', 'a', '2']
}

/// The name of the file at `path`: what follows the last `/`.
pub open spec fn file_name_of(path: Seq<char>) -> Seq<char> {
    after_last(path, '/')
}

/// The directory of the file at `path`: what stands before the file's name,
/// without the separators at its end. It is `/` where nothing but separators
/// stands there, and empty where `path` holds no separator.
pub open spec fn directory_of(path: Seq<char>) -> Seq<char> {
    let head = path.take(path.len() - file_name_of(path).len());
    if head.len() > 0 && trim_end(head, '/').len() == 0 {
        seq!['/']
    } else {
        trim_end(head, '/')
    }
}

/// Whether `path` names a control record: its file name ends in `.aria2`
/// and holds something before that.
pub open spec fn is_control_path(path: Seq<char>) -> bool {
    let name = file_name_of(path);
    name.len() > control_suffix().len() && name.skip(name.len() - control_suffix().len())
        == control_suffix()
}

/// The path of the file that the control record at `control_path` belongs
/// to: the same path without `.aria2`.
pub open spec fn controlled_path(control_path: Seq<char>) -> Seq<char> {
    control_path.take(control_path.len() - control_suffix().len())
}

/// The directory of the file at `path`.
pub fn parent_directory(path: &str) -> (directory: String)
    ensures
        directory@ == directory_of(path@),
{
    let mut head = to_chars(path);
    let name = after_last_chars(&head, '/');
    proof {
        lemma_after_last_holds_none(head@, '/');
    }
    let head_len = head.len() - name.len();
    head.truncate(head_len);
    let trimmed = trim_end_chars(&head, '/');
    if head.len() > 0 && trimmed.len() == 0 {
        let mut root: Vec<char> = Vec::new();
        root.push('/');
        assert(root@ =~= seq!['/']);
        from_chars(&root)
    } else {
        from_chars(&trimmed)
    }
}

/// Whether `path` names a control record of the external download manager.
pub fn is_control_file(path: &str) -> (control: bool)
    ensures
        control == is_control_path(path@),
{
    let chars = to_chars(path);
    let name = after_last_chars(&chars, '/');
    let suffix = to_chars(".aria2");
    proof {
        reveal_strlit(".aria2");
        assert(suffix@ =~= control_suffix());
    }
    if name.len() <= suffix.len() {
        return false;
    }
    let offset = name.len() - suffix.len();
    let mut i: usize = 0;
    while i < suffix.len()
        invariant
            i <= suffix.len(),
            offset + suffix.len() == name.len(),
            suffix@ == control_suffix(),
            name@ == file_name_of(path@),
            forall|j: int| 0 <= j < i ==> name@[offset + j] == suffix@[j],
        decreases suffix.len() - i,
    {
        if name[offset + i] != suffix[i] {
            assert(name@.skip(offset as int)[i as int] != suffix@[i as int]);
            return false;
        }
        i += 1;
    }
    assert(name@.skip(offset as int) =~= suffix@);
    true
}

/// A transfer to go on with: the call of the external download manager that
/// resumes it.
pub struct ResumeRequest {
    /// The directory that holds the partial file.
    pub directory: String,
    /// The name of the partial file.
    pub file_name: String,
    /// The address that the control record names.
    pub url: String,
    /// The arguments for the external download manager.
    pub args: Vec<String>,
}

/// Whether a control record at `control_path` with content `content` leads
/// to a request.
pub open spec fn resumes(control_path: Seq<char>, content: Seq<char>) -> bool {
    is_control_path(control_path) && first_uri(lines(content)) is Some
}

/// Plans the resumption of the transfer that a control record describes,
/// from the record alone: its path gives the file, its content the address.
///
/// There is a request exactly where the path names a control record and the
/// content names an address.
pub fn resume_request(control_path: &str, content: &str, options: Option<&str>) -> (request:
    Option<ResumeRequest>)
    ensures
        request is Some == resumes(control_path@, content@),
        request matches Some(r) ==> {
            &&& r.url@ == first_uri(lines(content@))->0
            &&& r.file_name@ == file_name_of(controlled_path(control_path@))
            &&& r.directory@ == directory_of(controlled_path(control_path@))
            &&& strings_view(r.args@) == resume_args(
                r.directory@,
                r.file_name@,
                r.url@,
                option_text(options),
            )
        },
{
    if !is_control_file(control_path) {
        return None;
    }
    let url = match control_record_uri(content) {
        Some(address) => address,
        None => {
            return None;
        },
    };
    let mut target = to_chars(control_path);
    proof {
        lemma_after_last_holds_none(target@, '/');
    }
    let kept = target.len() - 6;
    target.truncate(kept);
    assert(target@ =~= controlled_path(control_path@));
    let target = from_chars(&target);
    let directory = parent_directory(target.as_str());
    let file_name = from_chars(&after_last_chars(&to_chars(target.as_str()), '/'));
    let args = external_resume_args(directory.as_str(), file_name.as_str(), url.as_str(), options);
    Some(ResumeRequest { directory, file_name, url, args })
}

/// How the transfer of one file ended.
#[derive(Clone, Copy, Debug, PartialEq, Eq, Structural)]
pub enum TaskOutcome {
    /// The file was there already: no request was issued.
    Skipped,
    /// The file was transferred, with this many bytes.
    Downloaded { bytes: usize },
    /// Every attempt failed, or the transfer broke off.
    Failed,
}

/// The counters after one more outcome: a transferred file counts as one
/// file and its bytes, a failed one as one error, a skipped one as nothing.
pub open spec fn counted(before: StatsSnapshot, outcome: TaskOutcome) -> StatsSnapshot {
    match outcome {
        TaskOutcome::Skipped => before,
        TaskOutcome::Downloaded { bytes } => StatsSnapshot {
            files_downloaded: advanced(before.files_downloaded, 1),
            bytes_downloaded: advanced(before.bytes_downloaded, bytes),
            ..before
        },
        TaskOutcome::Failed => StatsSnapshot { errors: advanced(before.errors, 1), ..before },
    }
}

/// The counters after each of `outcomes` was counted in turn.
pub open spec fn tallied(before: StatsSnapshot, outcomes: Seq<TaskOutcome>) -> StatsSnapshot
    decreases outcomes.len(),
{
    if outcomes.len() == 0 {
        before
    } else {
        counted(tallied(before, outcomes.drop_last()), outcomes.last())
    }
}

/// The number of transferred files among `outcomes`.
pub open spec fn downloaded_count(outcomes: Seq<TaskOutcome>) -> nat
    decreases outcomes.len(),
{
    if outcomes.len() == 0 {
        0
    } else {
        downloaded_count(outcomes.drop_last()) + if outcomes.last() is Downloaded {
            1nat
        } else {
            0nat
        }
    }
}

/// The number of failed transfers among `outcomes`.
pub open spec fn failed_count(outcomes: Seq<TaskOutcome>) -> nat
    decreases outcomes.len(),
{
    if outcomes.len() == 0 {
        0
    } else {
        failed_count(outcomes.drop_last()) + if outcomes.last() is Failed {
            1nat
        } else {
            0nat
        }
    }
}

/// The number of skipped files among `outcomes`.
pub open spec fn skipped_count(outcomes: Seq<TaskOutcome>) -> nat
    decreases outcomes.len(),
{
    if outcomes.len() == 0 {
        0
    } else {
        skipped_count(outcomes.drop_last()) + if outcomes.last() is Skipped {
            1nat
        } else {
            0nat
        }
    }
}

/// The bytes of all transferred files among `outcomes`.
pub open spec fn downloaded_bytes(outcomes: Seq<TaskOutcome>) -> nat
    decreases outcomes.len(),
{
    if outcomes.len() == 0 {
        0
    } else {
        downloaded_bytes(outcomes.drop_last()) + match outcomes.last() {
            TaskOutcome::Downloaded { bytes } => bytes as nat,
            _ => 0nat,
        }
    }
}

/// Counts the outcome of one transfer.
pub fn record_outcome(stats: &mut ScrapingStats, outcome: TaskOutcome)
    ensures
        final(stats)@ == counted(old(stats)@, outcome),
{
    match outcome {
        TaskOutcome::Skipped => {},
        TaskOutcome::Downloaded { bytes } => {
            stats.increment_files();
            stats.add_bytes(bytes);
        },
        TaskOutcome::Failed => {
            stats.increment_errors();
        },
    }
}

/// Counts the outcomes of the transfers of one directory.
pub fn record_batch(stats: &mut ScrapingStats, outcomes: &Vec<TaskOutcome>)
    ensures
        final(stats)@ == tallied(old(stats)@, outcomes@),
{
    let mut i: usize = 0;
    assert(outcomes@.take(0) =~= Seq::<TaskOutcome>::empty());
    while i < outcomes.len()
        invariant
            i <= outcomes.len(),
            stats@ == tallied(old(stats)@, outcomes@.take(i as int)),
        decreases outcomes.len() - i,
    {
        assert(outcomes@.take(i + 1).drop_last() =~= outcomes@.take(i as int));
        record_outcome(stats, outcomes[i]);
        i += 1;
    }
    assert(outcomes@.take(i as int) =~= outcomes@);
}

/// After a batch the counters show exactly what its transfers came to: one
/// file for each that succeeded, with its bytes, and one error for each that
/// failed. Pages are untouched. (A counter that would pass its largest value
/// stays there.)
pub proof fn lemma_tally_counts_each_outcome(before: StatsSnapshot, outcomes: Seq<TaskOutcome>)
    ensures
        tallied(before, outcomes).pages_scraped == before.pages_scraped,
        tallied(before, outcomes).files_downloaded == if before.files_downloaded
            + downloaded_count(outcomes) <= usize::MAX {
            before.files_downloaded + downloaded_count(outcomes)
        } else {
            usize::MAX as int
        },
        tallied(before, outcomes).bytes_downloaded == if before.bytes_downloaded
            + downloaded_bytes(outcomes) <= usize::MAX {
            before.bytes_downloaded + downloaded_bytes(outcomes)
        } else {
            usize::MAX as int
        },
        tallied(before, outcomes).errors == if before.errors + failed_count(outcomes)
            <= usize::MAX {
            before.errors + failed_count(outcomes)
        } else {
            usize::MAX as int
        },
    decreases outcomes.len(),
{
    if outcomes.len() > 0 {
        lemma_tally_counts_each_outcome(before, outcomes.drop_last());
    }
}

/// Counting outcomes lowers no counter.
pub proof fn lemma_tally_never_lowers(before: StatsSnapshot, outcomes: Seq<TaskOutcome>)
    ensures
        not_below(tallied(before, outcomes), before),
    decreases outcomes.len(),
{
    if outcomes.len() > 0 {
        lemma_tally_never_lowers(before, outcomes.drop_last());
    }
}

/// Each outcome is of one kind: the three counts add up to the number of outcomes.
pub proof fn lemma_counts_add_up(outcomes: Seq<TaskOutcome>)
    ensures
        downloaded_count(outcomes) + failed_count(outcomes) + skipped_count(outcomes)
            == outcomes.len(),
    decreases outcomes.len(),
{
    if outcomes.len() > 0 {
        lemma_counts_add_up(outcomes.drop_last());
    }
}

/// What the counters show of one transfer does not depend on how another
/// ended: with a transfer in the batch turned into a failure, every other
/// transfer is counted as before.
pub proof fn lemma_failure_leaves_others_counted(outcomes: Seq<TaskOutcome>, i: int)
    requires
        0 <= i < outcomes.len(),
    ensures
        downloaded_count(outcomes.update(i, TaskOutcome::Failed)) == downloaded_count(outcomes)
            - if outcomes[i] is Downloaded {
            1int
        } else {
            0int
        },
        skipped_count(outcomes.update(i, TaskOutcome::Failed)) == skipped_count(outcomes)
            - if outcomes[i] is Skipped {
            1int
        } else {
            0int
        },
    decreases outcomes.len(),
{
    let changed = outcomes.update(i, TaskOutcome::Failed);
    if i == outcomes.len() - 1 {
        assert(changed.drop_last() =~= outcomes.drop_last());
    } else {
        assert(changed.drop_last() =~= outcomes.drop_last().update(i, TaskOutcome::Failed));
        lemma_failure_leaves_others_counted(outcomes.drop_last(), i);
    }
}

} // verus!
