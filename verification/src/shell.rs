//! What the interactive shell shows and runs: the list of staged files, the
//! kinds of commit on offer, and the commit command.
use crate::text::texts;
use vstd::prelude::*;
use vstd::string::StringExecFns;

verus! {

/// Each of `lines` behind four spaces and before a line feed, one after
/// another.
pub open spec fn indented(lines: Seq<Seq<char>>) -> Seq<char>
    decreases lines.len(),
{
    if lines.len() == 0 {
        Seq::empty()
    } else {
        indented(lines.drop_last()) + "    "@ + lines.last() + "\n"@
    }
}

/// The items of `v`, one on a line, each indented by four spaces.
pub fn join_vec_indented(v: &[String]) -> (joined: String)
    ensures
        joined@ == indented(texts(v@)),
{
    let mut joined = String::new();
    let mut i: usize = 0;
    assert(texts(v@).take(0) =~= Seq::<Seq<char>>::empty());
    while i < v.len()
        invariant
            i <= v.len(),
            joined@ == indented(texts(v@).take(i as int)),
        decreases v.len() - i,
    {
        joined.append("    ");
        joined.append(v[i].as_str());
        joined.append("\n");
        proof {
            let now = texts(v@).take(i + 1);
            assert(now.drop_last() =~= texts(v@).take(i as int));
            assert(now.last() == v@[i as int]@);
        }
        i = i + 1;
    }
    assert(texts(v@).take(v.len() as int) =~= texts(v@));
    joined
}

/// The question put before a commit is made.
pub const CONFIRM_PROMPT: &'static str = "Use this commit message?";

/// The line above the kinds of commit.
pub const SELECT_PROMPT: &'static str = "Select the type of commit you want to make:";

/// The kinds of commit on offer, in the order shown.
pub open spec fn commit_types_spec() -> Seq<Seq<char>> {
    seq!["feat"@, "fix"@, "nano"@, "BREAKING-CHANGE"@]
}

/// The kinds of commit on offer, in the order shown.
pub fn commit_types() -> (types: Vec<String>)
    ensures
        texts(types@) == commit_types_spec(),
{
    let mut types: Vec<String> = Vec::new();
    types.push(String::from_str("feat"));
    types.push(String::from_str("fix"));
    types.push(String::from_str("nano"));
    types.push(String::from_str("BREAKING-CHANGE"));
    assert(texts(types@) =~= commit_types_spec());
    types
}

/// `message` behind the kind of commit chosen, a colon and a space; `None`
/// where `selection` is none of the kinds on offer.
pub open spec fn typed_message(selection: int, message: Seq<char>) -> Option<Seq<char>> {
    if 0 <= selection < commit_types_spec().len() {
        Some(commit_types_spec()[selection] + ": "@ + message)
    } else {
        None
    }
}

/// The view of a text, if there is one.
pub open spec fn text_view(text: Option<String>) -> Option<Seq<char>> {
    match text {
        Some(t) => Some(t@),
        None => None,
    }
}

/// The message to commit with, for the kind of commit at index `selection`
/// of [`commit_types`].
pub fn typed_commit_message(selection: usize, message: &str) -> (typed: Option<String>)
    ensures
        text_view(typed) == typed_message(selection as int, message@),
{
    let types = commit_types();
    if selection < types.len() {
        let mut typed = types[selection].clone();
        typed.append(": ");
        typed.append(message);
        assert(texts(types@)[selection as int] == types@[selection as int]@);
        Some(typed)
    } else {
        None
    }
}

/// The arguments with which git commits under `message`.
pub fn commit_arguments(message: String) -> (args: Vec<String>)
    ensures
        texts(args@) == seq!["commit"@, "-m"@, message@],
{
    let mut args: Vec<String> = Vec::new();
    let ghost text = message@;
    args.push(String::from_str("commit"));
    args.push(String::from_str("-m"));
    args.push(message);
    assert(texts(args@) =~= seq!["commit"@, "-m"@, text]);
    args
}

} // verus!
