//! What the writer of doc comments puts where.

use crate::evaluation_laws;
use crate::order;
use crate::order::Ranked;
use crate::syn_writer;
use crate::syn_writer::{
    ActionView, EffectSet, GraphEdge, GraphNode, Insertion, Replacement,
};
use crate::text;
use vstd::prelude::*;

verus! {

// ---------------------------------------------------------------------------
// Doc comments
// ---------------------------------------------------------------------------

/// An edge of the relation leaves the node.
pub open spec fn leaves(edges: Seq<GraphEdge>, id: Seq<char>, relation: Seq<char>) -> bool {
    exists|i: int|
        0 <= i < edges.len() && (#[trigger] edges[i]).relation@ == relation && edges[i].from@ == id
}

/// A node has an effect where an edge of that relation leaves it.
pub proof fn law_effects_are_told_by_edges(edges: Seq<GraphEdge>, id: Seq<char>)
    ensures
        ({
            let e = syn_writer::effects(edges, id);
            &&& e.reads_artifact <==> leaves(edges, id, "ReadsArtifact"@)
            &&& e.reads_state <==> leaves(edges, id, "ReadsState"@)
            &&& e.writes_artifact <==> leaves(edges, id, "WritesArtifact"@)
            &&& e.writes_state <==> leaves(edges, id, "WritesState"@)
            &&& e.spawns_process <==> leaves(edges, id, "SpawnsProcess"@)
            &&& e.uses_network <==> leaves(edges, id, "UsesNetwork"@)
            &&& e.transitions_state <==> leaves(edges, id, "TransitionsState"@)
            &&& e.logging <==> leaves(edges, id, "PerformsLogging"@)
        }),
{
    lemma_leaves(edges, id, "ReadsArtifact"@);
    lemma_leaves(edges, id, "ReadsState"@);
    lemma_leaves(edges, id, "WritesArtifact"@);
    lemma_leaves(edges, id, "WritesState"@);
    lemma_leaves(edges, id, "SpawnsProcess"@);
    lemma_leaves(edges, id, "UsesNetwork"@);
    lemma_leaves(edges, id, "TransitionsState"@);
    lemma_leaves(edges, id, "PerformsLogging"@);
}

proof fn lemma_leaves(edges: Seq<GraphEdge>, id: Seq<char>, relation: Seq<char>)
    ensures
        syn_writer::has_edge(edges, id, relation) <==> leaves(edges, id, relation),
{
    if syn_writer::has_edge(edges, id, relation) {
        let i = choose|i: int|
            0 <= i < edges.len() && (#[trigger] edges[i]).from@ == id && edges[i].relation@
                == relation;
        assert(edges[i].relation@ == relation);
    }
    if leaves(edges, id, relation) {
        let i = choose|i: int|
            0 <= i < edges.len() && (#[trigger] edges[i]).relation@ == relation && edges[i].from@
                == id;
        assert(edges[i].from@ == id);
    }
}

/// Each effect has one name.
pub proof fn law_effects_are_named(e: EffectSet)
    ensures
        e.named() == evaluation_laws::one_if(e.reads_artifact, "reads_artifact"@)
            + evaluation_laws::one_if(e.reads_state, "reads_state"@) + evaluation_laws::one_if(
            e.writes_artifact,
            "writes_artifact"@,
        ) + evaluation_laws::one_if(e.writes_state, "writes_state"@) + evaluation_laws::one_if(
            e.transitions_state,
            "transitions_state"@,
        ) + evaluation_laws::one_if(e.spawns_process, "spawns_process"@)
            + evaluation_laws::one_if(e.uses_network, "uses_network"@) + evaluation_laws::one_if(
            e.logging,
            "logging"@,
        ),
{
    let v0 = text::no_texts();
    let v1 = text::with_text_if(v0, e.reads_artifact, "reads_artifact"@);
    lemma_one_more(v0, e.reads_artifact, "reads_artifact"@);
    let v2 = text::with_text_if(v1, e.reads_state, "reads_state"@);
    lemma_one_more(v1, e.reads_state, "reads_state"@);
    let v3 = text::with_text_if(v2, e.writes_artifact, "writes_artifact"@);
    lemma_one_more(v2, e.writes_artifact, "writes_artifact"@);
    let v4 = text::with_text_if(v3, e.writes_state, "writes_state"@);
    lemma_one_more(v3, e.writes_state, "writes_state"@);
    let v5 = text::with_text_if(v4, e.transitions_state, "transitions_state"@);
    lemma_one_more(v4, e.transitions_state, "transitions_state"@);
    let v6 = text::with_text_if(v5, e.spawns_process, "spawns_process"@);
    lemma_one_more(v5, e.spawns_process, "spawns_process"@);
    let v7 = text::with_text_if(v6, e.uses_network, "uses_network"@);
    lemma_one_more(v6, e.uses_network, "uses_network"@);
    let v8 = text::with_text_if(v7, e.logging, "logging"@);
    lemma_one_more(v7, e.logging, "logging"@);
    assert(v0 + evaluation_laws::one_if(e.reads_artifact, "reads_artifact"@)
        =~= evaluation_laws::one_if(e.reads_artifact, "reads_artifact"@));
}

proof fn lemma_one_more(s: Seq<Seq<char>>, b: bool, t: Seq<char>)
    ensures
        text::with_text_if(s, b, t) == s + evaluation_laws::one_if(b, t),
{
    assert(text::with_text_if(s, b, t) =~= s + evaluation_laws::one_if(b, t));
}

/// A doc comment begins with the intent and ends with where it is from; between them
/// stand the effects, where there are any, and the resource, where one is named.
pub proof fn law_a_doc_comment_names_its_intent(
    intent: Seq<char>,
    resource: Option<Seq<char>>,
    effects: Option<EffectSet>,
    indent: Seq<char>,
)
    ensures
        ({
            let lines = syn_writer::doc_lines(intent, resource, effects, indent);
            let some = effects matches Some(e) && e.named().len() > 0;
            let named = resource matches Some(r) && r.len() > 0;
            &&& lines[0] == indent + "/// Intent: "@ + intent
            &&& lines.last() == indent + "/// Provenance: generated"@
            &&& lines.len() == 2 + (if some { 1int } else { 0int }) + (if named {
                1int
            } else {
                0int
            })
            &&& some ==> (effects matches Some(e) ==> lines[1] == indent + "/// Effects: "@
                + text::joined(e.named(), ", "@))
            &&& named ==> (resource matches Some(r) ==> lines[lines.len() - 2] == indent
                + "/// Resource: "@ + r)
        }),
{
}

/// The indent of a line is its blanks and tabs up to the first other character.
pub proof fn law_an_indent_is_blanks_and_tabs(line: Seq<char>)
    ensures
        syn_writer::indent_len(line) <= line.len(),
        forall|i: int|
            0 <= i < syn_writer::indent_len(line) ==> #[trigger] line[i] == ' ' || line[i] == '\t',
        syn_writer::indent_len(line) < line.len() ==> line[syn_writer::indent_len(line) as int]
            != ' ' && line[syn_writer::indent_len(line) as int] != '\t',
    decreases line.len(),
{
    if line.len() > 0 && (line[0] == ' ' || line[0] == '\t') {
        let rest = line.drop_first();
        law_an_indent_is_blanks_and_tabs(rest);
        assert forall|i: int| 0 <= i < syn_writer::indent_len(line) implies #[trigger] line[i]
            == ' ' || line[i] == '\t' by {
            if i > 0 {
                assert(line[i] == rest[i - 1]);
            }
        }
        if syn_writer::indent_len(line) < line.len() {
            assert(line[syn_writer::indent_len(line) as int] == rest[syn_writer::indent_len(rest)
                as int]);
        }
    }
}

// ---------------------------------------------------------------------------
// Places
// ---------------------------------------------------------------------------

/// The line is an attribute.
pub open spec fn is_attribute(line: Seq<char>) -> bool {
    text::has_prefix(text::trimmed(line), "#["@)
}

/// The line is one of a doc comment.
pub open spec fn is_doc(line: Seq<char>) -> bool {
    text::has_prefix(text::trimmed(line), "///"@) || text::has_prefix(
        text::trimmed(line),
        "//!"@,
    )
}

/// A doc comment is put before the attributes of its function: between the two stand
/// attributes alone, and above it neither an attribute nor a doc comment. A function
/// with a doc comment gets none, nor one with an attribute that does not end on its
/// line.
pub proof fn law_a_doc_comment_is_put_before_attributes(lines: Seq<Seq<char>>, at: nat)
    requires
        at <= lines.len(),
    ensures
        match syn_writer::insert_point(lines, at) {
            Ok(p) => {
                &&& p <= at
                &&& forall|k: int| p <= k < at ==> is_attribute(#[trigger] lines[k])
                &&& p > 0 ==> !is_attribute(lines[p - 1]) && !is_doc(lines[p - 1])
            },
            Err(why) => exists|k: int|
                0 <= k < at && (is_doc(#[trigger] lines[k]) && why == "existing_doc"@
                    || is_attribute(lines[k]) && !text::has_text(text::trimmed(lines[k]), "]"@)
                    && why == "complex_attr"@) && forall|j: int|
                    k < j < at ==> is_attribute(#[trigger] lines[j]),
        },
    decreases at,
{
    if at > 0 {
        let prev = text::trimmed(lines[at - 1]);
        if is_doc(lines[at - 1]) {
            assert(is_doc(lines[at - 1]));
        } else if is_attribute(lines[at - 1]) && text::has_text(prev, "]"@) {
            law_a_doc_comment_is_put_before_attributes(lines, (at - 1) as nat);
            match syn_writer::insert_point(lines, (at - 1) as nat) {
                Ok(p) => {},
                Err(why) => {
                    let k = choose|k: int|
                        0 <= k < at - 1 && (is_doc(#[trigger] lines[k]) && why == "existing_doc"@
                            || is_attribute(lines[k]) && !text::has_text(
                            text::trimmed(lines[k]),
                            "]"@,
                        ) && why == "complex_attr"@) && forall|j: int|
                            k < j < at - 1 ==> is_attribute(#[trigger] lines[j]);
                    assert(is_doc(lines[k]) || is_attribute(lines[k]));
                },
            }
        }
    }
}

/// The intent of a function stands on the nearest line above it that is no attribute.
pub proof fn law_an_intent_stands_above_its_function(lines: Seq<Seq<char>>, at: nat)
    requires
        at <= lines.len(),
    ensures
        match syn_writer::intent_line(lines, at) {
            Some(p) => {
                &&& p < at
                &&& text::has_prefix(text::trimmed(lines[p as int]), "/// Intent:"@)
                &&& forall|k: int| p < k < at ==> is_attribute(#[trigger] lines[k])
            },
            None => forall|k: int|
                0 <= k < at && !is_attribute(#[trigger] lines[k]) && text::has_prefix(
                    text::trimmed(lines[k]),
                    "/// Intent:"@,
                ) ==> exists|j: int| k < j < at && !is_attribute(#[trigger] lines[j]),
        },
    decreases at,
{
    if at > 0 {
        if is_attribute(lines[at - 1]) {
            law_an_intent_stands_above_its_function(lines, (at - 1) as nat);
            if syn_writer::intent_line(lines, at) is None {
                assert forall|k: int|
                    0 <= k < at && !is_attribute(#[trigger] lines[k]) && text::has_prefix(
                        text::trimmed(lines[k]),
                        "/// Intent:"@,
                    ) implies exists|j: int| k < j < at && !is_attribute(#[trigger] lines[j]) by {
                    let j = choose|j: int| k < j < at - 1 && !is_attribute(#[trigger] lines[j]);
                    assert(!is_attribute(lines[j]));
                }
            }
        } else if syn_writer::intent_line(lines, at) is None {
            assert forall|k: int|
                0 <= k < at && !is_attribute(#[trigger] lines[k]) && text::has_prefix(
                    text::trimmed(lines[k]),
                    "/// Intent:"@,
                ) implies exists|j: int| k < j < at && !is_attribute(#[trigger] lines[j]) by {
                assert(k < at - 1);
                assert(!is_attribute(lines[at - 1]));
            }
        }
    }
}

/// Where links are followed a file lies below the sources by its true path; else by
/// its own where it is absolute, and below `src` where it is relative.
pub proof fn law_a_file_lies_below_the_sources(
    file: Seq<char>,
    canonical: Option<Seq<char>>,
    src: Seq<char>,
)
    ensures
        canonical matches Some(c) ==> (syn_writer::under_src(file, canonical, src)
            <==> syn_writer::components(src).is_prefix_of(syn_writer::components(c))),
        canonical is None && text::has_prefix(file, "/"@) ==> (syn_writer::under_src(
            file,
            canonical,
            src,
        ) <==> syn_writer::components(src).is_prefix_of(syn_writer::components(file))),
        canonical is None && !text::has_prefix(file, "/"@) ==> (syn_writer::under_src(
            file,
            canonical,
            src,
        ) <==> syn_writer::components("src"@).is_prefix_of(syn_writer::components(file))),
{
}

/// A piece of a path counts where it is not empty and no dot behind the first.
pub proof fn law_dots_and_empty_pieces_do_not_count(pieces: Seq<Seq<char>>, n: nat)
    requires
        0 < n <= pieces.len(),
    ensures
        ({
            let was = syn_writer::parts_from(pieces, (n - 1) as nat);
            let now = syn_writer::parts_from(pieces, n);
            let p = pieces[n - 1];
            &&& p.len() == 0 ==> now == was
            &&& n > 1 && p == "."@ ==> now == was
            &&& p.len() > 0 && (n == 1 || p != "."@) ==> now == was.push(p)
            &&& syn_writer::parts_from(pieces, 0).len() == 0
        }),
{
}

// ---------------------------------------------------------------------------
// Candidates and plans
// ---------------------------------------------------------------------------

/// A doc comment is written for a function of the sources with an intent and without
/// a doc comment of its own, and extended where its own is one line with the intent.
pub proof fn law_candidates_are_functions_with_an_intent(n: GraphNode, in_src: bool, augment: bool)
    ensures
        ({
            let own = exists|i: int|
                0 <= i < n.provenance@.len() && (#[trigger] n.provenance@[i])@
                    == "rustc:docstring"@;
            let short = n.docstring matches Some(d) && text::has_prefix(
                text::trimmed(d@),
                "Intent:"@,
            ) && !text::has_text(d@, "\n"@);
            let placed = n.def matches Some(d) && text::has_suffix(d.file@, ".rs"@);
            syn_writer::candidate(n, in_src, augment) <==> n.kind@ == "fn"@ && n.intent_class is Some
                && placed && in_src && (if augment {
                own && short
            } else {
                !own
            })
        }),
{
    let all = text::texts(n.provenance@);
    if all.contains("rustc:docstring"@) {
        let i = choose|i: int| 0 <= i < all.len() && all[i] == "rustc:docstring"@;
        assert(n.provenance@[i]@ == "rustc:docstring"@);
    }
    if exists|i: int|
        0 <= i < n.provenance@.len() && (#[trigger] n.provenance@[i])@ == "rustc:docstring"@ {
        let i = choose|i: int|
            0 <= i < n.provenance@.len() && (#[trigger] n.provenance@[i])@ == "rustc:docstring"@;
        assert(all[i] == "rustc:docstring"@);
    }
}

/// A text is generated for a function exactly where there is a place for it, and only
/// a run that writes leaves it pending.
pub proof fn law_a_text_is_generated_where_it_has_a_place(
    n: GraphNode,
    edges: Seq<GraphEdge>,
    lines: Seq<Seq<char>>,
    write: bool,
)
    ensures
        ({
            let line = if let Some(d) = n.def { d.line as int } else { 0 };
            let at = if line == 0 { 0 } else { line - 1 };
            let r = syn_writer::node_status(n, edges, lines, false, write);
            &&& at >= lines.len() ==> r.0 == "skip:bad_span"@ && r.1 is None
            &&& at < lines.len() ==> (r.1 is Some <==> syn_writer::insert_point(lines, at as nat)
                is Ok)
            &&& r.1 is Some ==> r.0 == if write { "pending_write"@ } else { "dry_run"@ }
            &&& syn_writer::node_insertion(n, edges, lines, false) is Some <==> r.1 is Some
            &&& syn_writer::node_replacement(n, edges, lines, false) is None
            &&& syn_writer::node_insertion(n, edges, lines, true) is None
        }),
{
}

/// A doc comment is extended where its intent is found and there is more to say.
pub proof fn law_a_doc_comment_is_extended_where_it_gains(
    n: GraphNode,
    edges: Seq<GraphEdge>,
    lines: Seq<Seq<char>>,
    write: bool,
)
    ensures
        ({
            let line = if let Some(d) = n.def { d.line as int } else { 0 };
            let at = if line == 0 { 0 } else { line - 1 };
            let r = syn_writer::node_status(n, edges, lines, true, write);
            &&& at < lines.len() && syn_writer::intent_line(lines, at as nat) is None ==> r.0
                == "skip:intent_not_found"@ && r.1 is None
            &&& at < lines.len() && syn_writer::intent_line(lines, at as nat) is Some ==> (r.1
                is Some <==> text::has_text(
                text::trimmed(syn_writer::node_doc(n, edges, lines[at])),
                "\n"@,
            ))
            &&& syn_writer::node_replacement(n, edges, lines, true) is Some <==> r.1 is Some
        }),
{
}

/// Functions are taken from the last line to the first.
pub proof fn law_functions_are_taken_from_the_end(nodes: Seq<GraphNode>, i: int, j: int)
    requires
        0 <= i < j < nodes.len(),
    ensures
        syn_writer::by_line(nodes).to_multiset() == nodes.to_multiset(),
        syn_writer::by_line(nodes).len() == nodes.len(),
        syn_writer::node_line(syn_writer::by_line(nodes)[i]) >= syn_writer::node_line(
            syn_writer::by_line(nodes)[j],
        ),
{
    let le = |a: GraphNode, b: GraphNode| <GraphNode as Ranked>::rank_le(a, b);
    order::lemma_stable_sorted(nodes, le);
    assert(le(syn_writer::by_line(nodes)[i], syn_writer::by_line(nodes)[j]));
}

/// Edits are made from the last place to the first.
pub proof fn law_edits_are_made_from_the_end(
    ins: Seq<(usize, Seq<char>, u32)>,
    reps: Seq<(usize, usize, Seq<char>, u32)>,
    i: int,
    j: int,
)
    requires
        0 <= i < j,
    ensures
        j < ins.len() ==> syn_writer::insertions_from_the_end(ins)[i].0
            >= syn_writer::insertions_from_the_end(ins)[j].0,
        j < reps.len() ==> syn_writer::replacements_from_the_end(reps)[i].0
            >= syn_writer::replacements_from_the_end(reps)[j].0,
        syn_writer::insertions_from_the_end(ins).to_multiset() == ins.to_multiset(),
        syn_writer::replacements_from_the_end(reps).to_multiset() == reps.to_multiset(),
{
    let le = |a: (usize, Seq<char>, u32), b: (usize, Seq<char>, u32)|
        <Insertion as Ranked>::rank_le(a, b);
    let more = |a: (usize, usize, Seq<char>, u32), b: (usize, usize, Seq<char>, u32)|
        <Replacement as Ranked>::rank_le(a, b);
    order::lemma_stable_sorted(ins, le);
    order::lemma_stable_sorted(reps, more);
    if j < ins.len() {
        assert(le(
            syn_writer::insertions_from_the_end(ins)[i],
            syn_writer::insertions_from_the_end(ins)[j],
        ));
    }
    if j < reps.len() {
        assert(more(
            syn_writer::replacements_from_the_end(reps)[i],
            syn_writer::replacements_from_the_end(reps)[j],
        ));
    }
}

/// A replacement takes out its lines and puts the text in their place; one of no lines
/// or beyond the source changes nothing.
pub proof fn law_a_replacement_takes_the_place_of_its_lines(
    lines: Seq<Seq<char>>,
    reps: Seq<(usize, usize, Seq<char>, u32)>,
    r: (usize, usize, Seq<char>, u32),
)
    ensures
        ({
            let was = syn_writer::with_replacements(lines, reps);
            let now = syn_writer::with_replacements(lines, reps.push(r));
            if r.0 < r.1 && r.1 <= was.len() {
                now == was.take(r.0 as int) + syn_writer::block_lines(r.2) + was.skip(r.1 as int)
            } else {
                now == was
            }
        }),
{
    assert(reps.push(r).drop_last() =~= reps);
}

/// What waits for its file to be written is what has a text, in a run that writes.
pub proof fn law_generated_texts_wait_for_the_write(actions: Seq<ActionView>, a: ActionView)
    ensures
        syn_writer::pending_of(actions, false).len() == 0,
        a.generated_text is Some ==> syn_writer::pending_of(actions.push(a), true)
            == syn_writer::pending_of(actions, true).push(actions.len() as usize),
        a.generated_text is None ==> syn_writer::pending_of(actions.push(a), true)
            == syn_writer::pending_of(actions, true),
    decreases actions.len(),
{
    assert(actions.push(a).drop_last() =~= actions);
    if actions.len() > 0 {
        law_generated_texts_wait_for_the_write(actions.drop_last(), a);
    }
}

/// A write that succeeded gives its actions the status of success and keeps their
/// texts; other actions stay as they were.
pub proof fn law_a_good_write_settles_its_actions(
    actions: Seq<ActionView>,
    indices: Seq<usize>,
    success: Seq<char>,
    k: int,
)
    requires
        0 <= k < actions.len(),
    ensures
        ({
            let r = syn_writer::marked(actions, indices, true, success);
            &&& r.len() == actions.len()
            &&& r[k].generated_text == actions[k].generated_text
            &&& r[k].status == if exists|i: int|
                0 <= i < indices.len() && #[trigger] indices[i] == k {
                success
            } else {
                actions[k].status
            }
        }),
    decreases indices.len(),
{
    if indices.len() > 0 {
        let front = indices.drop_last();
        law_a_good_write_settles_its_actions(actions, front, success, k);
        let at = indices.last();
        assert(indices[indices.len() - 1] == at);
        if exists|i: int| 0 <= i < front.len() && #[trigger] front[i] == k {
            let i = choose|i: int| 0 <= i < front.len() && #[trigger] front[i] == k;
            assert(indices[i] == k);
        }
        if exists|i: int| 0 <= i < indices.len() && #[trigger] indices[i] == k {
            let i = choose|i: int| 0 <= i < indices.len() && #[trigger] indices[i] == k;
            if i < front.len() {
                assert(front[i] == k);
            }
        }
        lemma_marked_len(actions, front, success);
    }
}

proof fn lemma_marked_len(actions: Seq<ActionView>, indices: Seq<usize>, success: Seq<char>)
    ensures
        syn_writer::marked(actions, indices, true, success).len() == actions.len(),
    decreases indices.len(),
{
    if indices.len() > 0 {
        lemma_marked_len(actions, indices.drop_last(), success);
    }
}

/// An action counts under its status.
pub proof fn law_an_action_counts_under_its_status(
    actions: Seq<ActionView>,
    a: ActionView,
    status: Seq<char>,
)
    ensures
        syn_writer::status_count(Seq::empty(), status) == 0,
        syn_writer::status_count(actions.push(a), status) == syn_writer::status_count(
            actions,
            status,
        ) + if a.status == status {
            1nat
        } else {
            0nat
        },
{
    assert(actions.push(a).drop_last() =~= actions);
}

} // verus!
