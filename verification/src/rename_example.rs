//! The decisions of the rename example: where it may run, and how it is undone.

use crate::text;
use crate::text::{ends_with, is_blank, trim};
use vstd::prelude::*;

verus! {

/// The branch that marks where the example started.
pub open spec fn checkpoint_branch() -> Seq<char> {
    "example_rename_checkpoint"@
}

/// The branch that marks where the example started.
pub fn checkpoint() -> (r: &'static str)
    ensures
        r@ == checkpoint_branch(),
{
    "example_rename_checkpoint"
}

/// Whether `git rev-parse --is-inside-work-tree` says yes.
pub fn inside_worktree(code: i32, out: &str) -> (r: bool)
    ensures
        r == (code == 0 && text::has_suffix(text::trimmed(out@), "true"@)),
{
    code == 0 && ends_with(trim(out).as_str(), "true")
}

/// Whether `git status --porcelain` lists anything.
pub fn had_local_changes(status_out: &str) -> (r: bool)
    ensures
        r == !text::blank(status_out@),
{
    !is_blank(status_out)
}

/// The commands of `git` that undo the example: back to where it started, without
/// what it left, and with the changes that were set aside.
pub open spec fn rollback(head: Seq<char>, had_local_changes: bool) -> Seq<Seq<Seq<char>>> {
    let back = seq![
        seq!["reset"@, "--hard"@, head],
        seq!["clean"@, "-fd"@],
    ];
    if had_local_changes {
        back.push(seq!["stash"@, "pop"@])
    } else {
        back
    }
}

/// Lists of texts.
pub open spec fn lists(v: Seq<Vec<String>>) -> Seq<Seq<Seq<char>>> {
    v.map_values(|l: Vec<String>| text::texts(l@))
}

fn words(a: &str, b: &str) -> (r: Vec<String>)
    ensures
        text::texts(r@) == seq![a@, b@],
{
    let mut r: Vec<String> = Vec::new();
    r.push(a.to_owned());
    r.push(b.to_owned());
    assert(text::texts(r@) =~= seq![a@, b@]);
    r
}

/// The commands of `git` that undo the example.
pub fn rollback_commands(head: &str, had_local_changes: bool) -> (r: Vec<Vec<String>>)
    ensures
        lists(r@) == rollback(head@, had_local_changes),
{
    let mut reset = words("reset", "--hard");
    let ghost two = text::texts(reset@);
    reset.push(head.to_owned());
    assert(text::texts(reset@) =~= two.push(head@));
    assert(two.push(head@) =~= seq!["reset"@, "--hard"@, head@]);
    let clean = words("clean", "-fd");
    let mut r: Vec<Vec<String>> = Vec::new();
    r.push(reset);
    r.push(clean);
    if had_local_changes {
        r.push(words("stash", "pop"));
    }
    assert(lists(r@) =~= rollback(head@, had_local_changes));
    r
}

/// What was set aside comes back exactly where something was.
pub proof fn law_local_changes_come_back(head: Seq<char>, had_local_changes: bool)
    ensures
        rollback(head, had_local_changes).contains(seq!["stash"@, "pop"@]) <==> had_local_changes,
{
    reveal_strlit("stash");
    reveal_strlit("clean");
    reveal_strlit("pop");
    reveal_strlit("-fd");
    assert("pop"@[0] == 'p' && "-fd"@[0] == '-');
    let all = rollback(head, had_local_changes);
    let pop = seq!["stash"@, "pop"@];
    if had_local_changes {
        assert(all[2] == pop);
    } else {
        assert(all[0].len() == 3 && pop.len() == 2);
        assert(all[1][1] == "-fd"@ && pop[1] == "pop"@);
    }
}

} // verus!
