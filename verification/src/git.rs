//! Inspecting the staged changes of a working tree: which commands to ask
//! of git, and what to make of what they print.
use crate::text::{
    decimal, decimal_text, is_word, lemma_words, split_whitespace, texts, trim, trimmed, words,
};
use vstd::prelude::*;
use vstd::string::StringExecFns;
use vstd::utf8::{
    decode_utf8, encode_utf8, encode_utf8_decode_utf8, encode_utf8_valid_utf8, valid_utf8,
};

verus! {

/// The words in which the error of `String::from_utf8` says why `bytes` are
/// no UTF-8.
pub uninterp spec fn utf8_error_text(bytes: Seq<u8>) -> Seq<char>;

/// `String::from_utf8`: bytes that are UTF-8 are accepted and give the text
/// that they encode; all others are refused, and the error that comes back
/// is handed on as the text that it displays.
#[verifier::external_body]
fn decode_output(bytes: Vec<u8>) -> (r: Result<String, String>)
    ensures
        r is Ok <==> valid_utf8(bytes@),
        r matches Ok(text) ==> text@ == decode_utf8(bytes@),
        r matches Err(reason) ==> reason@ == utf8_error_text(bytes@),
{
    match String::from_utf8(bytes) {
        Ok(text) => Ok(text),
        Err(e) => Err(format!("{}", e)),
    }
}

/// What git printed, decoded: the text, or why the bytes are none.
pub open spec fn decoded(bytes: Seq<u8>) -> Result<Seq<char>, Seq<char>> {
    if valid_utf8(bytes) {
        Ok(decode_utf8(bytes))
    } else {
        Err(utf8_error_text(bytes))
    }
}

/// The bytes that encode a text decode to that text.
pub proof fn lemma_decoded_text(text: Seq<char>)
    ensures
        decoded(encode_utf8(text)) == Ok::<Seq<char>, Seq<char>>(text),
{
    encode_utf8_valid_utf8(text);
    encode_utf8_decode_utf8(text);
}

/// The view of a decoded output.
pub open spec fn decoded_view(r: Result<String, String>) -> Result<Seq<char>, Seq<char>> {
    match r {
        Ok(text) => Ok(text@),
        Err(reason) => Err(reason@),
    }
}

/// Why no staged changes could be reported.
#[derive(Debug, Clone, PartialEq, Eq)]
pub enum GitError {
    /// The directory is in no working tree.
    NotARepository,
    /// Nothing is staged.
    NoStagedChanges,
    /// git printed bytes that are no UTF-8; the decoder's words are kept.
    EncodingError(String),
}

/// A [`GitError`], with its text as a sequence of characters.
pub enum GitErrorView {
    NotARepository,
    NoStagedChanges,
    EncodingError(Seq<char>),
}

impl View for GitError {
    type V = GitErrorView;

    open spec fn view(&self) -> GitErrorView {
        match self {
            GitError::NotARepository => GitErrorView::NotARepository,
            GitError::NoStagedChanges => GitErrorView::NoStagedChanges,
            GitError::EncodingError(reason) => GitErrorView::EncodingError(reason@),
        }
    }
}

impl GitErrorView {
    /// What the user is told.
    pub open spec fn message(self) -> Seq<char> {
        match self {
            GitErrorView::NotARepository => "Not a git repo"@,
            GitErrorView::NoStagedChanges => "No staged changes found. Make sure to stage your changes with `git add`."@,
            GitErrorView::EncodingError(reason) => reason,
        }
    }
}

impl GitError {
    /// What the user is told.
    pub fn message(&self) -> (text: String)
        ensures
            text@ == self@.message(),
    {
        match self {
            GitError::NotARepository => String::from_str("Not a git repo"),
            GitError::NoStagedChanges => String::from_str(
                "No staged changes found. Make sure to stage your changes with `git add`.",
            ),
            GitError::EncodingError(reason) => reason.clone(),
        }
    }
}

/// The staged files and their diff, taken in one inspection.
#[derive(Debug, Clone, PartialEq, Eq)]
pub struct StagedFiles {
    pub files: Vec<String>,
    pub diff: String,
}

/// [`StagedFiles`], with its texts as sequences of characters.
pub struct StagedFilesView {
    pub files: Seq<Seq<char>>,
    pub diff: Seq<char>,
}

impl View for StagedFiles {
    type V = StagedFilesView;

    open spec fn view(&self) -> StagedFilesView {
        StagedFilesView { files: texts(self.files@), diff: self.diff@ }
    }
}

/// The line that announces `count` staged files.
pub open spec fn detected_message(count: nat) -> Seq<char> {
    "Detected "@ + decimal(count) + " staged file"@ + (if count > 1 {
        "s"@
    } else {
        Seq::empty()
    }) + ":"@
}

impl StagedFiles {
    /// The line that announces how many files are staged.
    pub fn get_detected_message(&self) -> (line: String)
        ensures
            line@ == detected_message(self@.files.len()),
    {
        let count: usize = self.files.len();
        let mut line = String::from_str("Detected ");
        let number = decimal_text(count);
        line.append(number.as_str());
        line.append(" staged file");
        if count > 1 {
            line.append("s");
        }
        line.append(":");
        proof {
            let plural: Seq<char> = if count > 1 {
                "s"@
            } else {
                Seq::empty()
            };
            assert(line@ =~= "Detected "@ + decimal(count as nat) + " staged file"@ + plural
                + ":"@);
        }
        line
    }
}

/// A command asked of git; what it prints is handed back as bytes.
#[derive(Debug, Clone, Copy, PartialEq, Eq, Structural)]
pub enum GitQuery {
    /// `git rev-parse --is-inside-work-tree`
    InsideWorkTree,
    /// `git diff --cached --name-only`
    StagedNames,
    /// `git diff --cached`
    StagedDiff,
}

impl GitQuery {
    /// The arguments that git is run with.
    pub open spec fn arguments_spec(self) -> Seq<Seq<char>> {
        match self {
            GitQuery::InsideWorkTree => seq!["rev-parse"@, "--is-inside-work-tree"@],
            GitQuery::StagedNames => seq!["diff"@, "--cached"@, "--name-only"@],
            GitQuery::StagedDiff => seq!["diff"@, "--cached"@],
        }
    }

    /// The arguments that git is run with.
    pub fn arguments(&self) -> (args: Vec<String>)
        ensures
            texts(args@) == self.arguments_spec(),
    {
        let mut args: Vec<String> = Vec::new();
        match self {
            GitQuery::InsideWorkTree => {
                args.push(String::from_str("rev-parse"));
                args.push(String::from_str("--is-inside-work-tree"));
            },
            GitQuery::StagedNames => {
                args.push(String::from_str("diff"));
                args.push(String::from_str("--cached"));
                args.push(String::from_str("--name-only"));
            },
            GitQuery::StagedDiff => {
                args.push(String::from_str("diff"));
                args.push(String::from_str("--cached"));
            },
        }
        assert(texts(args@) =~= self.arguments_spec());
        args
    }
}

/// The word with which git says that the directory is inside a working tree.
pub const INSIDE: &'static str = "true";

/// `text` is the word [`INSIDE`], with white space around it at most.
pub open spec fn says_inside(text: Seq<char>) -> bool {
    trimmed(text) == INSIDE@
}

/// Whether `text`, printed for [`GitQuery::InsideWorkTree`], says that the
/// directory is inside a working tree.
pub fn says_inside_work_tree(text: &str) -> (inside: bool)
    ensures
        inside == says_inside(text@),
{
    let word = trim(text);
    let expected = String::from_str(INSIDE);
    word == expected
}

/// What git prints where the directory is inside a working tree: UTF-8 that
/// says so.
pub open spec fn is_work_tree(output: Seq<u8>) -> bool {
    valid_utf8(output) && says_inside(decode_utf8(output))
}

/// Whether `output`, printed for [`GitQuery::InsideWorkTree`], says that the
/// directory is inside a working tree. Bytes that are no UTF-8 do not say so.
pub fn is_git_repo(output: Vec<u8>) -> (inside: bool)
    ensures
        inside == is_work_tree(output@),
{
    match decode_output(output) {
        Ok(text) => says_inside_work_tree(text.as_str()),
        Err(_) => false,
    }
}

/// How far an inspection has come.
#[derive(Debug, Clone, PartialEq, Eq)]
pub enum Inspection {
    /// Nothing was asked yet.
    Idle,
    /// Waiting for what [`GitQuery::InsideWorkTree`] prints.
    Probing,
    /// Waiting for what [`GitQuery::StagedNames`] prints.
    Listing,
    /// The staged files are known; waiting for what [`GitQuery::StagedDiff`]
    /// prints.
    Diffing(Vec<String>),
    /// Files and diff are known.
    Finished(StagedFiles),
    /// The inspection ended without them.
    Failed(GitError),
}

/// An [`Inspection`], with its texts as sequences of characters.
pub enum InspectionView {
    Idle,
    Probing,
    Listing,
    Diffing(Seq<Seq<char>>),
    Finished(StagedFilesView),
    Failed(GitErrorView),
}

impl View for Inspection {
    type V = InspectionView;

    open spec fn view(&self) -> InspectionView {
        match self {
            Inspection::Idle => InspectionView::Idle,
            Inspection::Probing => InspectionView::Probing,
            Inspection::Listing => InspectionView::Listing,
            Inspection::Diffing(files) => InspectionView::Diffing(texts(files@)),
            Inspection::Finished(staged) => InspectionView::Finished(staged@),
            Inspection::Failed(error) => InspectionView::Failed(error@),
        }
    }
}

impl InspectionView {
    /// The state after git has answered [`GitQuery::InsideWorkTree`].
    pub open spec fn probed(output: Seq<u8>) -> InspectionView {
        if is_work_tree(output) {
            InspectionView::Listing
        } else {
            InspectionView::Failed(GitErrorView::NotARepository)
        }
    }

    /// The state after git has answered [`GitQuery::StagedNames`] with what
    /// decodes to `names`: the files are the words of the text, and a text
    /// that is empty lists none.
    pub open spec fn listed(names: Result<Seq<char>, Seq<char>>) -> InspectionView {
        match names {
            Ok(text) => if text.len() == 0 {
                InspectionView::Failed(GitErrorView::NoStagedChanges)
            } else {
                InspectionView::Diffing(words(text))
            },
            Err(reason) => InspectionView::Failed(GitErrorView::EncodingError(reason)),
        }
    }

    /// The state after git has answered [`GitQuery::StagedDiff`] with what
    /// decodes to `diff`.
    pub open spec fn diffed(
        files: Seq<Seq<char>>,
        diff: Result<Seq<char>, Seq<char>>,
    ) -> InspectionView {
        match diff {
            Ok(text) => InspectionView::Finished(StagedFilesView { files, diff: text }),
            Err(reason) => InspectionView::Failed(GitErrorView::EncodingError(reason)),
        }
    }

    /// The query that this state waits to see answered.
    pub open spec fn awaits(self) -> Option<GitQuery> {
        match self {
            InspectionView::Probing => Some(GitQuery::InsideWorkTree),
            InspectionView::Listing => Some(GitQuery::StagedNames),
            InspectionView::Diffing(_) => Some(GitQuery::StagedDiff),
            _ => None,
        }
    }

    /// This state, entered, and the query that it sends out.
    pub open spec fn entered(self) -> (InspectionView, Option<GitQuery>) {
        (self, self.awaits())
    }

    /// The state that follows this one when `output` arrives, and the query
    /// to run next. `None` stands for the start, when nothing was asked and so
    /// nothing was printed. What arrives unasked changes nothing and asks
    /// nothing.
    pub open spec fn step(self, output: Option<Seq<u8>>) -> (InspectionView, Option<GitQuery>) {
        match (self, output) {
            (InspectionView::Idle, None) => InspectionView::Probing.entered(),
            (InspectionView::Probing, Some(bytes)) => InspectionView::probed(bytes).entered(),
            (InspectionView::Listing, Some(bytes)) => InspectionView::listed(
                decoded(bytes),
            ).entered(),
            (InspectionView::Diffing(files), Some(bytes)) => InspectionView::diffed(
                files,
                decoded(bytes),
            ).entered(),
            _ => (self, None),
        }
    }

    /// The state that the inspection is in after `outputs`, from this state on.
    pub open spec fn after(self, outputs: Seq<Seq<u8>>) -> InspectionView
        decreases outputs.len(),
    {
        if outputs.len() == 0 {
            self
        } else {
            self.step(Some(outputs[0])).0.after(outputs.drop_first())
        }
    }

    /// The queries that are sent out while `outputs` arrive, from this state
    /// on.
    pub open spec fn asked(self, outputs: Seq<Seq<u8>>) -> Seq<GitQuery>
        decreases outputs.len(),
    {
        if outputs.len() == 0 {
            Seq::empty()
        } else {
            let (next, query) = self.step(Some(outputs[0]));
            let sent: Seq<GitQuery> = match query {
                Some(q) => seq![q],
                None => Seq::empty(),
            };
            sent + next.asked(outputs.drop_first())
        }
    }
}

/// The bytes that `output` holds, if any.
pub open spec fn bytes_of(output: Option<Vec<u8>>) -> Option<Seq<u8>> {
    match output {
        Some(bytes) => Some(bytes@),
        None => None,
    }
}

impl Inspection {
    /// The query that this state waits to see answered.
    pub fn awaits(&self) -> (query: Option<GitQuery>)
        ensures
            query == self@.awaits(),
    {
        match self {
            Inspection::Probing => Some(GitQuery::InsideWorkTree),
            Inspection::Listing => Some(GitQuery::StagedNames),
            Inspection::Diffing(_) => Some(GitQuery::StagedDiff),
            _ => None,
        }
    }

    /// The state after git has answered [`GitQuery::StagedNames`] with what
    /// decodes to `names`.
    pub fn listed(names: Result<String, String>) -> (next: Inspection)
        ensures
            next@ == InspectionView::listed(decoded_view(names)),
    {
        match names {
            Ok(text) => {
                if text.as_str().is_empty() {
                    Inspection::Failed(GitError::NoStagedChanges)
                } else {
                    Inspection::Diffing(split_whitespace(text.as_str()))
                }
            },
            Err(reason) => Inspection::Failed(GitError::EncodingError(reason)),
        }
    }

    /// The state after git has answered [`GitQuery::StagedDiff`] with what
    /// decodes to `diff`.
    pub fn diffed(files: Vec<String>, diff: Result<String, String>) -> (next: Inspection)
        ensures
            next@ == InspectionView::diffed(texts(files@), decoded_view(diff)),
    {
        match diff {
            Ok(text) => Inspection::Finished(StagedFiles { files, diff: text }),
            Err(reason) => Inspection::Failed(GitError::EncodingError(reason)),
        }
    }

    /// The staged changes or the failure that the inspection ended with;
    /// `None` while it has not ended.
    pub fn outcome(self) -> (end: Option<Result<StagedFiles, GitError>>)
        ensures
            match self {
                Inspection::Finished(staged) => end == Some(
                    Ok::<StagedFiles, GitError>(staged),
                ),
                Inspection::Failed(error) => end == Some(Err::<StagedFiles, GitError>(error)),
                _ => end is None,
            },
    {
        match self {
            Inspection::Finished(staged) => Some(Ok(staged)),
            Inspection::Failed(error) => Some(Err(error)),
            _ => None,
        }
    }
}

/// One step of the inspection of the staged changes. Begin with
/// [`Inspection::Idle`] and no output; run each query that comes back and
/// hand in what it printed, until no query comes back. The inspection has then
/// ended, in [`Inspection::Finished`] or [`Inspection::Failed`].
pub fn get_staged_files(state: Inspection, output: Option<Vec<u8>>) -> (r: (
    Inspection,
    Option<GitQuery>,
))
    ensures
        (r.0@, r.1) == state@.step(bytes_of(output)),
{
    match state {
        Inspection::Idle => match output {
            None => (Inspection::Probing, Some(GitQuery::InsideWorkTree)),
            Some(_) => (Inspection::Idle, None),
        },
        Inspection::Probing => match output {
            Some(bytes) => {
                if is_git_repo(bytes) {
                    (Inspection::Listing, Some(GitQuery::StagedNames))
                } else {
                    (Inspection::Failed(GitError::NotARepository), None)
                }
            },
            None => (Inspection::Probing, None),
        },
        Inspection::Listing => match output {
            Some(bytes) => {
                let next = Inspection::listed(decode_output(bytes));
                let query = next.awaits();
                (next, query)
            },
            None => (Inspection::Listing, None),
        },
        Inspection::Diffing(files) => match output {
            Some(bytes) => {
                let next = Inspection::diffed(files, decode_output(bytes));
                let query = next.awaits();
                (next, query)
            },
            None => (Inspection::Diffing(files), None),
        },
        Inspection::Finished(staged) => (Inspection::Finished(staged), None),
        Inspection::Failed(error) => (Inspection::Failed(error), None),
    }
}

/// The files that a listing names are words: none is empty, and none holds
/// white space.
pub proof fn lemma_listed_files_are_words(names: Seq<char>)
    ensures
        InspectionView::listed(Ok(names)) matches InspectionView::Diffing(files) ==> forall|
            k: int,
        |
            0 <= k < files.len() ==> is_word(#[trigger] files[k]),
{
    lemma_words(names);
}

/// An inspection that has ended stays as it ended and asks nothing more.
pub proof fn lemma_ended_asks_nothing(state: InspectionView, outputs: Seq<Seq<u8>>)
    requires
        state is Finished || state is Failed,
    ensures
        state.after(outputs) == state,
        state.asked(outputs) == Seq::<GitQuery>::empty(),
    decreases outputs.len(),
{
    if outputs.len() > 0 {
        lemma_ended_asks_nothing(state, outputs.drop_first());
        assert(Seq::<GitQuery>::empty() + Seq::<GitQuery>::empty() =~= Seq::<GitQuery>::empty());
    }
}

/// Outside a working tree the inspection ends at once: it fails as not a
/// repository, and no other query is sent, whatever arrives afterwards.
pub proof fn lemma_no_repository_no_query(probe: Seq<u8>, later: Seq<Seq<u8>>)
    requires
        !is_work_tree(probe),
    ensures
        InspectionView::Probing.after(seq![probe] + later) == InspectionView::Failed(
            GitErrorView::NotARepository,
        ),
        InspectionView::Probing.asked(seq![probe] + later) == Seq::<GitQuery>::empty(),
{
    let outputs = seq![probe] + later;
    assert(outputs[0] == probe);
    assert(outputs.drop_first() =~= later);
    lemma_ended_asks_nothing(InspectionView::Failed(GitErrorView::NotARepository), later);
    assert(Seq::<GitQuery>::empty() + Seq::<GitQuery>::empty() =~= Seq::<GitQuery>::empty());
}

/// Where git lists no staged file the inspection ends at once: it fails as
/// without staged changes, and the diff is never asked for.
pub proof fn lemma_nothing_staged_no_diff(later: Seq<Seq<u8>>)
    ensures
        InspectionView::Listing.after(seq![Seq::<u8>::empty()] + later) == InspectionView::Failed(
            GitErrorView::NoStagedChanges,
        ),
        InspectionView::Listing.asked(seq![Seq::<u8>::empty()] + later) == Seq::<
            GitQuery,
        >::empty(),
{
    let nothing = Seq::<u8>::empty();
    let outputs = seq![nothing] + later;
    assert(outputs[0] == nothing);
    assert(outputs.drop_first() =~= later);
    assert(valid_utf8(nothing));
    assert(decode_utf8(nothing).len() == 0);
    lemma_ended_asks_nothing(InspectionView::Failed(GitErrorView::NoStagedChanges), later);
    assert(Seq::<GitQuery>::empty() + Seq::<GitQuery>::empty() =~= Seq::<GitQuery>::empty());
}

/// After the probe, the queries of an inspection are the names and then the
/// diff, as far as it gets: each is sent once at most, and the diff only
/// after the names.
pub proof fn lemma_queries_in_order(outputs: Seq<Seq<u8>>)
    ensures
        InspectionView::Probing.asked(outputs).is_prefix_of(
            seq![GitQuery::StagedNames, GitQuery::StagedDiff],
        ),
{
    let none = Seq::<GitQuery>::empty();
    if outputs.len() > 0 {
        let (listing, first) = InspectionView::Probing.step(Some(outputs[0]));
        let rest = outputs.drop_first();
        if listing is Listing {
            if rest.len() > 0 {
                let (diffing, second) = listing.step(Some(rest[0]));
                let last = rest.drop_first();
                if diffing is Diffing {
                    if last.len() > 0 {
                        let (end, third) = diffing.step(Some(last[0]));
                        lemma_ended_asks_nothing(end, last.drop_first());
                    }
                    assert(diffing.asked(last) =~= none);
                    assert(listing.asked(rest) =~= seq![GitQuery::StagedDiff]);
                } else {
                    lemma_ended_asks_nothing(diffing, last);
                    assert(listing.asked(rest) =~= none);
                }
            }
            assert(InspectionView::Probing.asked(outputs) =~= seq![GitQuery::StagedNames]
                + listing.asked(rest));
        } else {
            lemma_ended_asks_nothing(listing, rest);
            assert(InspectionView::Probing.asked(outputs) =~= none);
        }
    }
}

/// An inspection that is answered three times in UTF-8, by the word that
/// says inside a working tree and by names that are not empty, ends with the
/// words of the names as its files and with the diff as it was printed.
pub proof fn lemma_inspection_finishes(probe: Seq<u8>, names: Seq<u8>, diff: Seq<u8>)
    requires
        is_work_tree(probe),
        valid_utf8(names),
        names.len() > 0,
        valid_utf8(diff),
    ensures
        InspectionView::Probing.after(seq![probe, names, diff]) == InspectionView::Finished(
            StagedFilesView { files: words(decode_utf8(names)), diff: decode_utf8(diff) },
        ),
{
    let outputs = seq![probe, names, diff];
    assert(outputs.drop_first() =~= seq![names, diff]);
    assert(seq![names, diff].drop_first() =~= seq![diff]);
    assert(seq![diff].drop_first() =~= Seq::<Seq<u8>>::empty());
    assert(decode_utf8(names).len() > 0);
    reveal_with_fuel(InspectionView::after, 4);
}

} // verus!
