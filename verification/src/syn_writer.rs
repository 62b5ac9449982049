//! Structured doc comments for functions: what they say and where they are written.

use crate::order::{sort_ranked, Ranked};
use crate::order;
use crate::text;
use crate::text::{
    contains, copy_optional, copy_texts, empty_list, ends_with, join, same, slice_text, split,
    starts_with, to_chars, trim, trim_end_matches, trim_start,
};
use vstd::prelude::*;
use vstd::string::*;

verus! {

// ---------------------------------------------------------------------------
// The graph
// ---------------------------------------------------------------------------

/// Where a function is defined.
#[derive(Debug)]
pub struct SourceSpan {
    pub file: String,
    pub line: u32,
}

/// A node of a crate's graph.
#[derive(Debug)]
pub struct GraphNode {
    pub id: String,
    pub path: String,
    pub kind: String,
    pub intent_class: Option<String>,
    pub resource: Option<String>,
    pub provenance: Vec<String>,
    pub docstring: Option<String>,
    pub def: Option<SourceSpan>,
}

/// An edge of a crate's graph.
#[derive(Debug)]
pub struct GraphEdge {
    pub relation: String,
    pub from: String,
}

/// What a function does to the world.
#[derive(Debug, Clone, Copy, PartialEq, Eq, Structural)]
pub struct EffectSet {
    pub reads_artifact: bool,
    pub reads_state: bool,
    pub writes_artifact: bool,
    pub writes_state: bool,
    pub spawns_process: bool,
    pub uses_network: bool,
    pub transitions_state: bool,
    pub logging: bool,
}

impl EffectSet {
    /// The names of the effects that there are.
    pub open spec fn named(self) -> Seq<Seq<char>> {
        let v = text::no_texts();
        let v = text::with_text_if(v, self.reads_artifact, "reads_artifact"@);
        let v = text::with_text_if(v, self.reads_state, "reads_state"@);
        let v = text::with_text_if(v, self.writes_artifact, "writes_artifact"@);
        let v = text::with_text_if(v, self.writes_state, "writes_state"@);
        let v = text::with_text_if(v, self.transitions_state, "transitions_state"@);
        let v = text::with_text_if(v, self.spawns_process, "spawns_process"@);
        let v = text::with_text_if(v, self.uses_network, "uses_network"@);
        text::with_text_if(v, self.logging, "logging"@)
    }

    /// The names of the effects that there are.
    pub fn labels(&self) -> (r: Vec<String>)
        ensures
            text::texts(r@) == self.named(),
    {
        let mut v = empty_list();
        text::push_text_if(&mut v, self.reads_artifact, "reads_artifact");
        text::push_text_if(&mut v, self.reads_state, "reads_state");
        text::push_text_if(&mut v, self.writes_artifact, "writes_artifact");
        text::push_text_if(&mut v, self.writes_state, "writes_state");
        text::push_text_if(&mut v, self.transitions_state, "transitions_state");
        text::push_text_if(&mut v, self.spawns_process, "spawns_process");
        text::push_text_if(&mut v, self.uses_network, "uses_network");
        text::push_text_if(&mut v, self.logging, "logging");
        v
    }
}

/// Whether an edge of a relation leaves a node.
pub open spec fn has_edge(edges: Seq<GraphEdge>, id: Seq<char>, relation: Seq<char>) -> bool {
    exists|i: int|
        0 <= i < edges.len() && (#[trigger] edges[i]).from@ == id && edges[i].relation@ == relation
}

/// What a node does, by the edges that leave it.
pub open spec fn effects(edges: Seq<GraphEdge>, id: Seq<char>) -> EffectSet {
    EffectSet {
        reads_artifact: has_edge(edges, id, "ReadsArtifact"@),
        reads_state: has_edge(edges, id, "ReadsState"@),
        writes_artifact: has_edge(edges, id, "WritesArtifact"@),
        writes_state: has_edge(edges, id, "WritesState"@),
        spawns_process: has_edge(edges, id, "SpawnsProcess"@),
        uses_network: has_edge(edges, id, "UsesNetwork"@),
        transitions_state: has_edge(edges, id, "TransitionsState"@),
        logging: has_edge(edges, id, "PerformsLogging"@),
    }
}

fn leaves(edges: &Vec<GraphEdge>, id: &str, relation: &str) -> (r: bool)
    ensures
        r == has_edge(edges@, id@, relation@),
{
    let mut i: usize = 0;
    while i < edges.len()
        invariant
            i <= edges@.len(),
            forall|k: int|
                0 <= k < i ==> !((#[trigger] edges@[k]).from@ == id@ && edges@[k].relation@
                    == relation@),
        decreases edges@.len() - i,
    {
        if same(edges[i].from.as_str(), id) && same(edges[i].relation.as_str(), relation) {
            return true;
        }
        i += 1;
    }
    false
}

/// What a node does, by the edges that leave it.
pub fn effects_of(edges: &Vec<GraphEdge>, id: &str) -> (r: EffectSet)
    ensures
        r == effects(edges@, id@),
{
    EffectSet {
        reads_artifact: leaves(edges, id, "ReadsArtifact"),
        reads_state: leaves(edges, id, "ReadsState"),
        writes_artifact: leaves(edges, id, "WritesArtifact"),
        writes_state: leaves(edges, id, "WritesState"),
        spawns_process: leaves(edges, id, "SpawnsProcess"),
        uses_network: leaves(edges, id, "UsesNetwork"),
        transitions_state: leaves(edges, id, "TransitionsState"),
        logging: leaves(edges, id, "PerformsLogging"),
    }
}

// ---------------------------------------------------------------------------
// Doc comments
// ---------------------------------------------------------------------------

/// The lines of a doc comment.
pub open spec fn doc_lines(
    intent: Seq<char>,
    resource: Option<Seq<char>>,
    effects: Option<EffectSet>,
    indent: Seq<char>,
) -> Seq<Seq<char>> {
    let lines = seq![indent + "/// Intent: "@ + intent];
    let lines = match effects {
        Some(e) => if e.named().len() > 0 {
            lines.push(indent + "/// Effects: "@ + text::joined(e.named(), ", "@))
        } else {
            lines
        },
        None => lines,
    };
    let lines = match resource {
        Some(r) => if r.len() > 0 {
            lines.push(indent + "/// Resource: "@ + r)
        } else {
            lines
        },
        None => lines,
    };
    lines.push(indent + "/// Provenance: generated"@)
}

/// A doc comment with the line end behind it.
pub open spec fn doc(
    intent: Seq<char>,
    resource: Option<Seq<char>>,
    effects: Option<EffectSet>,
    indent: Seq<char>,
) -> Seq<char> {
    text::joined(doc_lines(intent, resource, effects, indent), "\n"@).push('\n')
}

fn labelled(indent: &str, label: &str, value: &str) -> (r: String)
    ensures
        r@ == indent@ + label@ + value@,
{
    let mut t = indent.to_owned();
    t.append(label);
    t.append(value);
    t
}

/// Writes a doc comment.
pub fn build_doc(
    intent: &str,
    resource: Option<&str>,
    effects: Option<&EffectSet>,
    indent: &str,
) -> (r: String)
    ensures
        r@ == doc(
            intent@,
            text::optional_ref(resource),
            match effects {
                Some(e) => Some(*e),
                None => None,
            },
            indent@,
        ),
{
    let ghost given: Option<EffectSet> = match effects {
        Some(e) => Some(*e),
        None => None,
    };
    let mut lines: Vec<String> = Vec::new();
    lines.push(labelled(indent, "/// Intent: ", intent));
    let ghost l1 = seq![indent@ + "/// Intent: "@ + intent@];
    assert(text::texts(lines@) =~= l1);
    match effects {
        Some(e) => {
            let labels = e.labels();
            assert(text::texts(labels@).len() == labels@.len());
            if labels.len() > 0 {
                let ghost before = text::texts(lines@);
                lines.push(labelled(indent, "/// Effects: ", join(&labels, ", ").as_str()));
                assert(text::texts(lines@) =~= before.push(
                    indent@ + "/// Effects: "@ + text::joined(e.named(), ", "@),
                ));
            }
        },
        None => {},
    }
    match resource {
        Some(res) => {
            if to_chars(res).len() > 0 {
                let ghost before = text::texts(lines@);
                lines.push(labelled(indent, "/// Resource: ", res));
                assert(text::texts(lines@) =~= before.push(indent@ + "/// Resource: "@ + res@));
            }
        },
        None => {},
    }
    let ghost before = text::texts(lines@);
    lines.push(labelled(indent, "/// Provenance: generated", ""));
    proof {
        reveal_strlit("");
        assert(indent@ + "/// Provenance: generated"@ + ""@ =~= indent@
            + "/// Provenance: generated"@);
        assert(text::texts(lines@) =~= before.push(indent@ + "/// Provenance: generated"@));
        assert(text::texts(lines@) == doc_lines(
            intent@,
            text::optional_ref(resource),
            given,
            indent@,
        ));
    }
    let mut t = join(&lines, "\n");
    t.push('\n');
    t
}

/// How many blanks and tabs a line begins with.
pub open spec fn indent_len(line: Seq<char>) -> nat
    decreases line.len(),
{
    if line.len() > 0 && (line[0] == ' ' || line[0] == '\t') {
        1 + indent_len(line.drop_first())
    } else {
        0
    }
}

/// The blanks and tabs that a line begins with.
pub fn leading_ws(line: &str) -> (r: String)
    ensures
        r@ == line@.take(indent_len(line@) as int),
        indent_len(line@) <= line@.len(),
{
    let chars = to_chars(line);
    let mut i: usize = 0;
    assert(chars@.skip(0) =~= chars@);
    while i < chars.len() && (chars[i] == ' ' || chars[i] == '\t')
        invariant
            i <= chars@.len(),
            indent_len(chars@) == i + indent_len(chars@.skip(i as int)),
        decreases chars@.len() - i,
    {
        assert(chars@.skip(i as int).drop_first() =~= chars@.skip(i + 1));
        i += 1;
    }
    assert(chars@.subrange(0, i as int) =~= chars@.take(i as int));
    slice_text(&chars, 0, i)
}

// ---------------------------------------------------------------------------
// Places
// ---------------------------------------------------------------------------

/// The texts of lines.
pub open spec fn line_views(v: Seq<&str>) -> Seq<Seq<char>> {
    v.map_values(|l: &str| l@)
}

/// Where a doc comment for the function on a line is inserted: before the attributes
/// that stand directly above it.
pub open spec fn insert_point(lines: Seq<Seq<char>>, at: nat) -> Result<nat, Seq<char>>
    decreases at,
{
    if at == 0 {
        Ok(0)
    } else {
        let prev = text::trimmed(lines[at - 1]);
        if text::has_prefix(prev, "///"@) || text::has_prefix(prev, "//!"@) {
            Err("existing_doc"@)
        } else if text::has_prefix(prev, "#["@) {
            if text::has_text(prev, "]"@) {
                insert_point(lines, (at - 1) as nat)
            } else {
                Err("complex_attr"@)
            }
        } else {
            Ok(at)
        }
    }
}

/// Where a doc comment for the function on a line is inserted.
pub fn find_insert_point(lines: &[&str], fn_line_0: usize) -> (r: Result<usize, &'static str>)
    requires
        fn_line_0 <= lines@.len(),
    ensures
        match insert_point(line_views(lines@), fn_line_0 as nat) {
            Ok(at) => r matches Ok(n) && n == at,
            Err(why) => r matches Err(e) && e@ == why,
        },
        r matches Ok(n) ==> n <= fn_line_0,
        r matches Err(e) ==> e@ == "existing_doc"@ || e@ == "complex_attr"@,
{
    let ghost all = line_views(lines@);
    let mut scan: usize = fn_line_0;
    while scan > 0
        invariant_except_break
            scan <= fn_line_0 <= lines@.len(),
            all == line_views(lines@),
            insert_point(all, fn_line_0 as nat) == insert_point(all, scan as nat),
        ensures
            scan <= fn_line_0,
            insert_point(all, fn_line_0 as nat) == Ok::<nat, Seq<char>>(scan as nat),
        decreases scan,
    {
        let prev = trim(lines[scan - 1]);
        let prev = prev.as_str();
        if starts_with(prev, "///") || starts_with(prev, "//!") {
            return Err("existing_doc");
        }
        if starts_with(prev, "#[") {
            if !contains(prev, "]") {
                return Err("complex_attr");
            }
            scan -= 1;
        } else {
            break;
        }
    }
    Ok(scan)
}

/// The line that names the intent of the function on a line.
pub open spec fn intent_line(lines: Seq<Seq<char>>, at: nat) -> Option<nat>
    decreases at,
{
    if at == 0 {
        None
    } else {
        let prev = text::trimmed(lines[at - 1]);
        if text::has_prefix(prev, "#["@) {
            intent_line(lines, (at - 1) as nat)
        } else if text::has_prefix(prev, "/// Intent:"@) {
            Some((at - 1) as nat)
        } else {
            None
        }
    }
}

/// The line that names the intent of the function on a line.
pub fn find_intent_line(lines: &[&str], fn_line_0: usize) -> (r: Option<usize>)
    requires
        fn_line_0 <= lines@.len(),
    ensures
        match intent_line(line_views(lines@), fn_line_0 as nat) {
            Some(at) => r matches Some(n) && n == at,
            None => r is None,
        },
        r matches Some(n) ==> n < fn_line_0,
{
    let ghost all = line_views(lines@);
    let mut scan: usize = fn_line_0;
    while scan > 0
        invariant
            scan <= fn_line_0 <= lines@.len(),
            all == line_views(lines@),
            intent_line(all, fn_line_0 as nat) == intent_line(all, scan as nat),
        decreases scan,
    {
        let prev = trim(lines[scan - 1]);
        let prev = prev.as_str();
        if !starts_with(prev, "#[") {
            if starts_with(prev, "/// Intent:") {
                return Some(scan - 1);
            }
            return None;
        }
        scan -= 1;
    }
    None
}

/// Whether a line is one of a doc comment.
pub open spec fn doc_line(line: Seq<char>) -> bool {
    text::has_prefix(text::trim_front(line), "///"@)
}

fn is_doc_line(line: &str) -> (r: bool)
    ensures
        r == doc_line(line@),
{
    starts_with(trim_start(line).as_str(), "///")
}

/// Whether `start..end` is the longest run of doc lines around a line, that line
/// taken as one.
pub open spec fn doc_block(lines: Seq<Seq<char>>, at: int, start: int, end: int) -> bool {
    &&& 0 <= start <= at < end
    &&& forall|k: int| start <= k < at ==> doc_line(#[trigger] lines[k])
    &&& forall|k: int| at < k < end ==> k < lines.len() && doc_line(#[trigger] lines[k])
    &&& start == 0 || !doc_line(lines[start - 1])
    &&& end >= lines.len() || !doc_line(lines[end])
}

/// Where the run of doc lines that ends before a line begins.
pub open spec fn block_start(lines: Seq<Seq<char>>, at: nat) -> nat
    decreases at,
{
    if at == 0 || !doc_line(lines[at - 1]) {
        at
    } else {
        block_start(lines, (at - 1) as nat)
    }
}

/// Where the run of doc lines that begins at a line ends.
pub open spec fn block_end(lines: Seq<Seq<char>>, at: nat) -> nat
    decreases lines.len() - at,
{
    if at >= lines.len() || !doc_line(lines[at as int]) {
        at
    } else {
        block_end(lines, at + 1)
    }
}

/// The doc comment around a line, or the one that ends the source where the line is the
/// one behind it.
pub fn find_doc_block_range(lines: &[&str], intent_line_idx: usize) -> (r: (usize, usize))
    requires
        intent_line_idx <= lines@.len(),
        intent_line_idx < usize::MAX,
    ensures
        doc_block(line_views(lines@), intent_line_idx as int, r.0 as int, r.1 as int),
        r.0 == block_start(line_views(lines@), intent_line_idx as nat),
        r.1 == block_end(line_views(lines@), (intent_line_idx + 1) as nat),
        intent_line_idx < lines@.len() ==> r.1 <= lines@.len(),
{
    let ghost all = line_views(lines@);
    let mut start: usize = intent_line_idx;
    while start > 0 && is_doc_line(lines[start - 1])
        invariant
            start <= intent_line_idx <= lines@.len(),
            all == line_views(lines@),
            forall|k: int| start <= k < intent_line_idx ==> doc_line(#[trigger] all[k]),
            block_start(all, intent_line_idx as nat) == block_start(all, start as nat),
        decreases start,
    {
        assert(all[start - 1] == lines@[start - 1]@);
        start -= 1;
    }
    let count: usize = lines.len();
    let mut end: usize = intent_line_idx + 1;
    while end < count && is_doc_line(lines[end])
        invariant
            intent_line_idx < end,
            end <= lines@.len() || end == intent_line_idx + 1,
            intent_line_idx < lines@.len() ==> end <= lines@.len(),
            count == lines@.len(),
            all == line_views(lines@),
            forall|k: int| intent_line_idx < k < end ==> doc_line(#[trigger] all[k]),
            block_end(all, (intent_line_idx + 1) as nat) == block_end(all, end as nat),
        decreases lines@.len() - end,
    {
        assert(all[end as int] == lines@[end as int]@);
        end += 1;
    }
    (start, end)
}

// ---------------------------------------------------------------------------
// Paths
// ---------------------------------------------------------------------------

/// The parts of a path: its root, and what stands between slashes. A dot counts only
/// at the beginning of a relative path.
pub open spec fn components(path: Seq<char>) -> Seq<Seq<char>> {
    let root = if text::has_prefix(path, "/"@) {
        seq!["/"@]
    } else {
        Seq::empty()
    };
    root + parts_from(text::pieces(path, '/'), text::pieces(path, '/').len())
}

/// The first parts of a path that count.
pub open spec fn parts_from(pieces: Seq<Seq<char>>, n: nat) -> Seq<Seq<char>>
    decreases n,
{
    if n == 0 || n > pieces.len() {
        Seq::empty()
    } else {
        let piece = pieces[n - 1];
        let front = parts_from(pieces, (n - 1) as nat);
        if piece.len() == 0 || (piece == "."@ && n > 1) {
            front
        } else {
            front.push(piece)
        }
    }
}

fn components_of(path: &str) -> (r: Vec<String>)
    ensures
        text::texts(r@) == components(path@),
{
    let mut parts: Vec<String> = Vec::new();
    if starts_with(path, "/") {
        parts.push("/".to_owned());
    }
    let ghost root = text::texts(parts@);
    proof {
        if text::has_prefix(path@, "/"@) {
            assert(root =~= seq!["/"@]);
        } else {
            assert(root =~= Seq::<Seq<char>>::empty());
        }
    }
    let pieces = split(path, '/');
    let ghost all = text::pieces(path@, '/');
    let mut i: usize = 0;
    assert(root + parts_from(all, 0) =~= root);
    while i < pieces.len()
        invariant
            i <= pieces@.len(),
            all == text::pieces(path@, '/'),
            all == text::texts(pieces@),
            text::texts(parts@) == root + parts_from(all, i as nat),
        decreases pieces@.len() - i,
    {
        let piece = pieces[i].as_str();
        let dropped = to_chars(piece).len() == 0 || (same(piece, ".") && i > 0);
        if !dropped {
            let ghost before = text::texts(parts@);
            parts.push(piece.to_owned());
            assert(text::texts(parts@) =~= before.push(piece@));
        }
        assert(all[i as int] == piece@);
        assert(text::texts(parts@) =~= root + parts_from(all, (i + 1) as nat));
        i += 1;
    }
    parts
}

/// Whether a path begins with all parts of another.
pub open spec fn path_begins(path: Seq<char>, base: Seq<char>) -> bool {
    components(base).is_prefix_of(components(path))
}

/// Whether a path begins with all parts of another.
pub fn path_starts_with(path: &str, base: &str) -> (r: bool)
    ensures
        r == path_begins(path@, base@),
{
    let p = components_of(path);
    let b = components_of(base);
    let ghost ps = components(path@);
    let ghost bs = components(base@);
    assert(ps.len() == p@.len() && bs.len() == b@.len());
    if b.len() > p.len() {
        return false;
    }
    let mut i: usize = 0;
    while i < b.len()
        invariant
            i <= b@.len() <= p@.len(),
            ps == text::texts(p@),
            bs == text::texts(b@),
            bs == components(base@),
            ps == components(path@),
            forall|k: int| 0 <= k < i ==> bs[k] == ps[k],
        decreases b@.len() - i,
    {
        if !same(b[i].as_str(), p[i].as_str()) {
            assert(bs[i as int] != ps[i as int]);
            assert(ps.take(bs.len() as int)[i as int] == ps[i as int]);
            return false;
        }
        assert(bs[i as int] == ps[i as int]);
        i += 1;
    }
    assert(bs =~= ps.take(bs.len() as int));
    true
}

/// Whether a file lies below the sources of the workspace. `canonical` is its path
/// with all links followed, where it exists.
pub open spec fn under_src(
    file: Seq<char>,
    canonical: Option<Seq<char>>,
    workspace_src: Seq<char>,
) -> bool {
    match canonical {
        Some(c) => path_begins(c, workspace_src),
        None => if text::has_prefix(file, "/"@) {
            path_begins(file, workspace_src)
        } else {
            path_begins(file, "src"@)
        },
    }
}

/// Whether a file lies below the sources of the workspace.
pub fn path_under_workspace_src(file: &str, canonical: Option<&str>, workspace_src: &str) -> (r:
    bool)
    ensures
        r == under_src(file@, text::optional_ref(canonical), workspace_src@),
{
    match canonical {
        Some(c) => path_starts_with(c, workspace_src),
        None => if starts_with(file, "/") {
            path_starts_with(file, workspace_src)
        } else {
            path_starts_with(file, "src")
        },
    }
}

// ---------------------------------------------------------------------------
// Candidates
// ---------------------------------------------------------------------------

/// Whether the doc comment of a node was read from its source.
pub open spec fn documented(n: GraphNode) -> bool {
    text::texts(n.provenance@).contains("rustc:docstring"@)
}

/// Whether the doc comment of a node is a single line that names its intent.
pub open spec fn intent_only(n: GraphNode) -> bool {
    n.docstring matches Some(d) && text::has_prefix(text::trimmed(d@), "Intent:"@)
        && !text::has_text(d@, "\n"@)
}

/// Whether a doc comment is to be written, or extended, for a node.
pub open spec fn candidate(n: GraphNode, in_src: bool, augment: bool) -> bool {
    &&& n.kind@ == "fn"@
    &&& n.intent_class is Some
    &&& n.def matches Some(d)
    &&& text::has_suffix(d.file@, ".rs"@)
    &&& in_src
    &&& if augment {
        documented(n) && intent_only(n)
    } else {
        !documented(n)
    }
}

fn is_documented(n: &GraphNode) -> (r: bool)
    ensures
        r == documented(*n),
{
    let ghost all = text::texts(n.provenance@);
    let mut i: usize = 0;
    while i < n.provenance.len()
        invariant
            i <= n.provenance@.len(),
            all == text::texts(n.provenance@),
            forall|k: int| 0 <= k < i ==> all[k] != "rustc:docstring"@,
        decreases n.provenance@.len() - i,
    {
        if same(n.provenance[i].as_str(), "rustc:docstring") {
            assert(all[i as int] == "rustc:docstring"@);
            return true;
        }
        i += 1;
    }
    false
}

/// Whether a doc comment is to be written, or extended, for a node. `in_src` says
/// whether its file lies below the sources of the workspace.
pub fn is_candidate(n: &GraphNode, in_src: bool, augment: bool) -> (r: bool)
    ensures
        r == candidate(*n, in_src, augment),
{
    if !same(n.kind.as_str(), "fn") || n.intent_class.is_none() || !in_src {
        return false;
    }
    match &n.def {
        Some(d) => {
            if !ends_with(d.file.as_str(), ".rs") {
                return false;
            }
        },
        None => {
            return false;
        },
    }
    if augment {
        match &n.docstring {
            Some(d) => is_documented(n) && starts_with(trim(d.as_str()).as_str(), "Intent:")
                && !contains(d.as_str(), "\n"),
            None => false,
        }
    } else {
        !is_documented(n)
    }
}

// ---------------------------------------------------------------------------
// Plans
// ---------------------------------------------------------------------------

/// What was done about a function.
#[derive(Debug)]
pub struct LogAction {
    pub status: String,
    pub fn_path: String,
    pub file: String,
    pub fn_line: u32,
    pub intent_class: String,
    pub generated_text: Option<String>,
}

/// What was done about a function, as texts.
pub struct ActionView {
    pub status: Seq<char>,
    pub fn_path: Seq<char>,
    pub file: Seq<char>,
    pub fn_line: u32,
    pub intent_class: Seq<char>,
    pub generated_text: Option<Seq<char>>,
}

impl View for LogAction {
    type V = ActionView;

    open spec fn view(&self) -> ActionView {
        ActionView {
            status: self.status@,
            fn_path: self.fn_path@,
            file: self.file@,
            fn_line: self.fn_line,
            intent_class: self.intent_class@,
            generated_text: text::optional(self.generated_text),
        }
    }
}

/// Actions as texts.
pub open spec fn action_views(v: Seq<LogAction>) -> Seq<ActionView> {
    v.map_values(|a: LogAction| a@)
}

/// A text that is put before a line.
#[derive(Debug)]
pub struct Insertion {
    pub insert_at: usize,
    pub text: String,
    pub fn_line: u32,
}

/// A text that takes the place of lines.
#[derive(Debug)]
pub struct Replacement {
    pub start_idx: usize,
    pub end_idx: usize,
    pub new_text: String,
    pub fn_line: u32,
}

impl View for Insertion {
    type V = (usize, Seq<char>, u32);

    open spec fn view(&self) -> (usize, Seq<char>, u32) {
        (self.insert_at, self.text@, self.fn_line)
    }
}

impl View for Replacement {
    type V = (usize, usize, Seq<char>, u32);

    open spec fn view(&self) -> (usize, usize, Seq<char>, u32) {
        (self.start_idx, self.end_idx, self.new_text@, self.fn_line)
    }
}

/// The index of a line that is counted from one. Line nought counts as the first.
pub open spec fn index_of_line(line: u32) -> int {
    if line == 0 {
        0
    } else {
        line - 1
    }
}

/// The doc comment for a node at a line of the source.
pub open spec fn node_doc(n: GraphNode, edges: Seq<GraphEdge>, line: Seq<char>) -> Seq<char> {
    doc(
        node_intent(n),
        text::optional(n.resource),
        if n.id@.len() == 0 {
            None
        } else {
            Some(effects(edges, n.id@))
        },
        line.take(indent_len(line) as int),
    )
}

/// The intent of a node.
pub open spec fn node_intent(n: GraphNode) -> Seq<char> {
    match n.intent_class {
        Some(c) => c@,
        None => "unknown"@,
    }
}

/// The line that a node is defined on, counted from one.
pub open spec fn node_line(n: GraphNode) -> u32 {
    match n.def {
        Some(d) => d.line,
        None => 0,
    }
}

/// The status of a node, and the text that is generated for it.
pub open spec fn node_status(
    n: GraphNode,
    edges: Seq<GraphEdge>,
    lines: Seq<Seq<char>>,
    augment: bool,
    write_mode: bool,
) -> (Seq<char>, Option<Seq<char>>) {
    let at = index_of_line(node_line(n));
    let pending = if write_mode {
        "pending_write"@
    } else {
        "dry_run"@
    };
    if at >= lines.len() {
        ("skip:bad_span"@, None)
    } else {
        let doc = node_doc(n, edges, lines[at]);
        if augment {
            if intent_line(lines, at as nat) is None {
                ("skip:intent_not_found"@, None)
            } else if !text::has_text(text::trimmed(doc), "\n"@) {
                ("skip:no_new_fields"@, None)
            } else {
                (pending, Some(doc))
            }
        } else {
            match insert_point(lines, at as nat) {
                Err(why) => ("skip:"@ + why, None),
                Ok(_) => (pending, Some(doc)),
            }
        }
    }
}

/// What is done about a node.
pub open spec fn node_action(
    n: GraphNode,
    edges: Seq<GraphEdge>,
    file: Seq<char>,
    lines: Seq<Seq<char>>,
    augment: bool,
    write_mode: bool,
) -> ActionView {
    let (status, generated_text) = node_status(n, edges, lines, augment, write_mode);
    ActionView {
        status,
        fn_path: n.path@,
        file,
        fn_line: node_line(n),
        intent_class: node_intent(n),
        generated_text,
    }
}

/// What is to be done about one function.
#[derive(Debug)]
pub struct NodePlan {
    pub action: LogAction,
    pub insertion: Option<Insertion>,
    pub replacement: Option<Replacement>,
}

/// The insertion for a node.
pub open spec fn node_insertion(
    n: GraphNode,
    edges: Seq<GraphEdge>,
    lines: Seq<Seq<char>>,
    augment: bool,
) -> Option<(usize, Seq<char>, u32)> {
    match node_status(n, edges, lines, augment, false).1 {
        Some(doc) => if augment {
            None
        } else {
            let at = index_of_line(node_line(n));
            Some((insert_point(lines, at as nat)->Ok_0 as usize, doc, node_line(n)))
        },
        None => None,
    }
}

/// The replacement for a node.
pub open spec fn node_replacement(
    n: GraphNode,
    edges: Seq<GraphEdge>,
    lines: Seq<Seq<char>>,
    augment: bool,
) -> Option<(usize, usize, Seq<char>, u32)> {
    match node_status(n, edges, lines, augment, false).1 {
        Some(doc) => if augment {
            let at = intent_line(lines, index_of_line(node_line(n)) as nat)->0;
            Some(
                (
                    block_start(lines, at) as usize,
                    block_end(lines, at + 1) as usize,
                    doc,
                    node_line(n),
                ),
            )
        } else {
            None
        },
        None => None,
    }
}

/// An edit that may be planned.
pub open spec fn edit<T: View>(e: Option<T>) -> Option<T::V> {
    match e {
        Some(x) => Some(x@),
        None => None,
    }
}

fn skipped(status: &str, n: &GraphNode, file: &str, line: u32) -> (r: NodePlan)
    ensures
        r.insertion is None,
        r.replacement is None,
        r.action@ == (ActionView {
            status: status@,
            fn_path: n.path@,
            file: file@,
            fn_line: line,
            intent_class: node_intent(*n),
            generated_text: None,
        }),
{
    let intent = match &n.intent_class {
        Some(c) => c.as_str(),
        None => "unknown",
    };
    NodePlan {
        action: LogAction {
            status: status.to_owned(),
            fn_path: n.path.as_str().to_owned(),
            file: file.to_owned(),
            fn_line: line,
            intent_class: intent.to_owned(),
            generated_text: None,
        },
        insertion: None,
        replacement: None,
    }
}

/// Plans what is done about a function whose file holds the given lines.
pub fn plan_node(
    n: &GraphNode,
    edges: &Vec<GraphEdge>,
    file: &str,
    lines: &[&str],
    augment: bool,
    write_mode: bool,
) -> (r: NodePlan)
    ensures
        r.action@ == node_action(*n, edges@, file@, line_views(lines@), augment, write_mode),
        edit(r.insertion) == node_insertion(*n, edges@, line_views(lines@), augment),
        edit(r.replacement) == node_replacement(*n, edges@, line_views(lines@), augment),
        r.insertion matches Some(ins) ==> ins.insert_at <= lines@.len(),
{
    let ghost all = line_views(lines@);
    let line: u32 = match &n.def {
        Some(d) => d.line,
        None => 0,
    };
    let at_line: u32 = if line == 0 {
        0
    } else {
        line - 1
    };
    if at_line as u64 >= lines.len() as u64 {
        return skipped("skip:bad_span", n, file, line);
    }
    let at: usize = at_line as usize;
    assert(all[at as int] == lines@[at as int]@);
    let intent = match &n.intent_class {
        Some(c) => c.as_str(),
        None => "unknown",
    };
    let resource = match &n.resource {
        Some(t) => Some(t.as_str()),
        None => None,
    };
    let found = effects_of(edges, n.id.as_str());
    let given = if to_chars(n.id.as_str()).len() == 0 {
        None
    } else {
        Some(&found)
    };
    let indent = leading_ws(lines[at]);
    let doc = build_doc(intent, resource, given, indent.as_str());
    assert(doc@ == node_doc(*n, edges@, all[at as int]));
    let pending = text::either(write_mode, "pending_write", "dry_run");
    let mut plan = skipped(pending, n, file, line);
    if augment {
        match find_intent_line(lines, at) {
            None => skipped("skip:intent_not_found", n, file, line),
            Some(idx) => {
                if !contains(trim(doc.as_str()).as_str(), "\n") {
                    return skipped("skip:no_new_fields", n, file, line);
                }
                let (start_idx, end_idx) = find_doc_block_range(lines, idx);
                plan.action.generated_text = Some(doc.as_str().to_owned());
                plan.replacement = Some(
                    Replacement { start_idx, end_idx, new_text: doc, fn_line: line },
                );
                plan
            },
        }
    } else {
        match find_insert_point(lines, at) {
            Err(why) => {
                let mut status = "skip:".to_owned();
                status.append(why);
                skipped(status.as_str(), n, file, line)
            },
            Ok(insert_at) => {
                plan.action.generated_text = Some(doc.as_str().to_owned());
                plan.insertion = Some(Insertion { insert_at, text: doc, fn_line: line });
                plan
            },
        }
    }
}

impl View for GraphNode {
    type V = GraphNode;

    open spec fn view(&self) -> GraphNode {
        *self
    }
}

impl Ranked for GraphNode {
    open spec fn rank_le(a: GraphNode, b: GraphNode) -> bool {
        node_line(a) >= node_line(b)
    }

    fn ranks_at_most(&self, other: &Self) -> bool {
        let a: u32 = match &self.def {
            Some(d) => d.line,
            None => 0,
        };
        let b: u32 = match &other.def {
            Some(d) => d.line,
            None => 0,
        };
        a >= b
    }

    proof fn rank_total(a: GraphNode, b: GraphNode) {
    }

    proof fn rank_transitive(a: GraphNode, b: GraphNode, c: GraphNode) {
    }
}

/// The functions of a file by their lines, the last line first.
pub open spec fn by_line(nodes: Seq<GraphNode>) -> Seq<GraphNode> {
    order::stable_sorted(
        nodes,
        |a: GraphNode, b: GraphNode| <GraphNode as Ranked>::rank_le(a, b),
    )
}

/// What is to be done about the functions of a file. `pending` are the actions that
/// wait for the file to be written.
#[derive(Debug)]
pub struct FilePlan {
    pub actions: Vec<LogAction>,
    pub insertions: Vec<Insertion>,
    pub replacements: Vec<Replacement>,
    pub pending: Vec<usize>,
}

/// The actions on functions.
pub open spec fn actions_for(
    nodes: Seq<GraphNode>,
    edges: Seq<GraphEdge>,
    file: Seq<char>,
    lines: Seq<Seq<char>>,
    augment: bool,
    write_mode: bool,
) -> Seq<ActionView> {
    nodes.map_values(
        |n: GraphNode| node_action(n, edges, file, lines, augment, write_mode),
    )
}

/// The insertions for functions, in their order.
pub open spec fn insertions_for(
    nodes: Seq<GraphNode>,
    edges: Seq<GraphEdge>,
    lines: Seq<Seq<char>>,
    augment: bool,
) -> Seq<(usize, Seq<char>, u32)>
    decreases nodes.len(),
{
    if nodes.len() == 0 {
        Seq::empty()
    } else {
        let before = insertions_for(nodes.drop_last(), edges, lines, augment);
        match node_insertion(nodes.last(), edges, lines, augment) {
            Some(i) => before.push(i),
            None => before,
        }
    }
}

/// The replacements for functions, in their order.
pub open spec fn replacements_for(
    nodes: Seq<GraphNode>,
    edges: Seq<GraphEdge>,
    lines: Seq<Seq<char>>,
    augment: bool,
) -> Seq<(usize, usize, Seq<char>, u32)>
    decreases nodes.len(),
{
    if nodes.len() == 0 {
        Seq::empty()
    } else {
        let before = replacements_for(nodes.drop_last(), edges, lines, augment);
        match node_replacement(nodes.last(), edges, lines, augment) {
            Some(r) => before.push(r),
            None => before,
        }
    }
}

/// The places of the actions that wait for their file to be written.
pub open spec fn pending_of(actions: Seq<ActionView>, write_mode: bool) -> Seq<usize>
    decreases actions.len(),
{
    if actions.len() == 0 {
        Seq::empty()
    } else {
        let before = pending_of(actions.drop_last(), write_mode);
        if write_mode && actions.last().generated_text is Some {
            before.push((actions.len() - 1) as usize)
        } else {
            before
        }
    }
}

/// Plans what is done about the functions of a file.
pub fn plan_file(
    nodes: Vec<GraphNode>,
    edges: &Vec<GraphEdge>,
    file: &str,
    source: &str,
    augment: bool,
    write_mode: bool,
) -> (r: FilePlan)
    ensures
        action_views(r.actions@) == actions_for(
            by_line(nodes@),
            edges@,
            file@,
            text::pieces(source@, '\n'),
            augment,
            write_mode,
        ),
        order::views(r.insertions@) == insertions_for(
            by_line(nodes@),
            edges@,
            text::pieces(source@, '\n'),
            augment,
        ),
        order::views(r.replacements@) == replacements_for(
            by_line(nodes@),
            edges@,
            text::pieces(source@, '\n'),
            augment,
        ),
        r.pending@ == pending_of(action_views(r.actions@), write_mode),
        forall|k: int|
            0 <= k < r.insertions@.len() ==> (#[trigger] r.insertions@[k]).insert_at
                <= text::pieces(source@, '\n').len(),
{
    let ghost all = text::pieces(source@, '\n');
    let held = split(source, '\n');
    let mut lines: Vec<&str> = Vec::new();
    let mut i: usize = 0;
    while i < held.len()
        invariant
            i <= held@.len(),
            lines@.len() == i,
            forall|k: int| 0 <= k < i ==> (#[trigger] lines@[k])@ == held@[k]@,
        decreases held@.len() - i,
    {
        lines.push(held[i].as_str());
        i += 1;
    }
    assert(line_views(lines@) =~= all);
    assert(order::views(nodes@) =~= nodes@);
    let sorted = sort_ranked(nodes);
    let ghost ordered = sorted@;
    assert(order::views(sorted@) =~= sorted@);
    assert(ordered == by_line(nodes@));
    let mut actions: Vec<LogAction> = Vec::new();
    let mut insertions: Vec<Insertion> = Vec::new();
    let mut replacements: Vec<Replacement> = Vec::new();
    let mut pending: Vec<usize> = Vec::new();
    let mut n: usize = 0;
    proof {
        assert(ordered.take(0) =~= Seq::<GraphNode>::empty());
        assert(action_views(actions@) =~= Seq::<ActionView>::empty());
        assert(order::views(insertions@) =~= Seq::<(usize, Seq<char>, u32)>::empty());
        assert(order::views(replacements@) =~= Seq::<(usize, usize, Seq<char>, u32)>::empty());
    }
    while n < sorted.len()
        invariant
            n <= sorted@.len(),
            ordered == sorted@,
            all == line_views(lines@),
            actions@.len() == n,
            action_views(actions@) == actions_for(
                ordered.take(n as int),
                edges@,
                file@,
                all,
                augment,
                write_mode,
            ),
            order::views(insertions@) == insertions_for(
                ordered.take(n as int),
                edges@,
                all,
                augment,
            ),
            order::views(replacements@) == replacements_for(
                ordered.take(n as int),
                edges@,
                all,
                augment,
            ),
            pending@ == pending_of(action_views(actions@), write_mode),
            forall|k: int|
                0 <= k < insertions@.len() ==> (#[trigger] insertions@[k]).insert_at <= all.len(),
        decreases sorted@.len() - n,
    {
        let plan = plan_node(&sorted[n], edges, file, lines.as_slice(), augment, write_mode);
        let ghost before = action_views(actions@);
        let ghost inserted = order::views(insertions@);
        let ghost replaced = order::views(replacements@);
        proof {
            assert(ordered.take(n + 1).drop_last() =~= ordered.take(n as int));
            assert(ordered.take(n + 1).last() == sorted@[n as int]);
        }
        if write_mode && plan.action.generated_text.is_some() {
            pending.push(n);
        }
        match plan.insertion {
            Some(ins) => {
                insertions.push(ins);
                assert(order::views(insertions@) =~= inserted.push(ins@));
            },
            None => {},
        }
        match plan.replacement {
            Some(rep) => {
                replacements.push(rep);
                assert(order::views(replacements@) =~= replaced.push(rep@));
            },
            None => {},
        }
        actions.push(plan.action);
        proof {
            assert(action_views(actions@) =~= before.push(plan.action@));
            assert(action_views(actions@).drop_last() =~= before);
            assert(action_views(actions@) =~= actions_for(
                ordered.take(n + 1),
                edges@,
                file@,
                all,
                augment,
                write_mode,
            ));
        }
        n += 1;
    }
    assert(ordered.take(n as int) =~= ordered);
    FilePlan { actions, insertions, replacements, pending }
}

// ---------------------------------------------------------------------------
// Edits
// ---------------------------------------------------------------------------

/// The lines of a text, without line ends at its end.
pub open spec fn block_lines(t: Seq<char>) -> Seq<Seq<char>> {
    text::pieces(text::trim_suffixes(t, "\n"@), '\n')
}

/// Lines with texts put before some of them, one after the other.
pub open spec fn with_insertions(lines: Seq<Seq<char>>, ins: Seq<(usize, Seq<char>, u32)>) -> Seq<
    Seq<char>,
>
    decreases ins.len(),
{
    if ins.len() == 0 {
        lines
    } else {
        let before = with_insertions(lines, ins.drop_last());
        let at = ins.last().0 as int;
        before.take(at) + block_lines(ins.last().1) + before.skip(at)
    }
}

/// Whether insertions lie within lines.
pub open spec fn insertions_fit(lines: Seq<Seq<char>>, ins: Seq<(usize, Seq<char>, u32)>) -> bool {
    forall|k: int| 0 <= k < ins.len() ==> (#[trigger] ins[k]).0 <= lines.len()
}

/// Insertions take no line away.
proof fn lemma_insertions_grow(lines: Seq<Seq<char>>, ins: Seq<(usize, Seq<char>, u32)>)
    requires
        insertions_fit(lines, ins),
    ensures
        with_insertions(lines, ins).len() >= lines.len(),
    decreases ins.len(),
{
    if ins.len() > 0 {
        let front = ins.drop_last();
        assert forall|k: int| 0 <= k < front.len() implies (#[trigger] front[k]).0
            <= lines.len() by {
            assert(front[k] == ins[k]);
        }
        lemma_insertions_grow(lines, front);
        assert(ins[ins.len() - 1].0 <= lines.len());
    }
}

fn insert_block(lines: &mut Vec<String>, at: usize, block: &Vec<String>)
    requires
        at <= old(lines)@.len(),
    ensures
        text::texts(final(lines)@) == text::texts(old(lines)@).take(at as int) + text::texts(
            block@,
        ) + text::texts(old(lines)@).skip(at as int),
{
    let mut tail = lines.split_off(at);
    let mut copy = copy_texts(block);
    lines.append(&mut copy);
    lines.append(&mut tail);
    assert(text::texts(lines@) =~= text::texts(old(lines)@).take(at as int) + text::texts(block@)
        + text::texts(old(lines)@).skip(at as int));
}

/// A source with texts put before some of its lines, one after the other.
pub fn apply_insertions(source: &str, ins: &[Insertion]) -> (r: String)
    requires
        insertions_fit(text::pieces(source@, '\n'), order::views(ins@)),
    ensures
        r@ == text::joined(
            with_insertions(text::pieces(source@, '\n'), order::views(ins@)),
            "\n"@,
        ),
{
    let ghost start = text::pieces(source@, '\n');
    let ghost all = order::views(ins@);
    let mut lines = split(source, '\n');
    let mut i: usize = 0;
    assert(all.take(0) =~= Seq::<(usize, Seq<char>, u32)>::empty());
    while i < ins.len()
        invariant
            i <= ins@.len(),
            all == order::views(ins@),
            insertions_fit(start, all),
            text::texts(lines@) == with_insertions(start, all.take(i as int)),
        decreases ins@.len() - i,
    {
        proof {
            let part = all.take(i as int);
            assert forall|k: int| 0 <= k < part.len() implies (#[trigger] part[k]).0
                <= start.len() by {
                assert(part[k] == all[k]);
            }
            lemma_insertions_grow(start, part);
            assert(all[i as int] == ins@[i as int]@);
            assert(all[i as int].0 <= start.len());
            assert(text::texts(lines@).len() == lines@.len());
            assert(all.take(i + 1).drop_last() =~= part);
            assert(all.take(i + 1).last() == all[i as int]);
        }
        let body = trim_end_matches(ins[i].text.as_str(), "\n");
        let block = split(body.as_str(), '\n');
        insert_block(&mut lines, ins[i].insert_at, &block);
        i += 1;
    }
    assert(all.take(i as int) =~= all);
    join(&lines, "\n")
}

/// Lines with texts in the place of some of them, one after the other. A replacement
/// of no lines, or of lines that are not there, is passed over.
pub open spec fn with_replacements(
    lines: Seq<Seq<char>>,
    reps: Seq<(usize, usize, Seq<char>, u32)>,
) -> Seq<Seq<char>>
    decreases reps.len(),
{
    if reps.len() == 0 {
        lines
    } else {
        let before = with_replacements(lines, reps.drop_last());
        let (start, end, t, _) = reps.last();
        if start < before.len() && start < end && end <= before.len() {
            before.take(start as int) + block_lines(t) + before.skip(end as int)
        } else {
            before
        }
    }
}

fn replace_block(lines: &mut Vec<String>, start: usize, end: usize, block: &Vec<String>)
    requires
        start <= end <= old(lines)@.len(),
    ensures
        text::texts(final(lines)@) == text::texts(old(lines)@).take(start as int) + text::texts(
            block@,
        ) + text::texts(old(lines)@).skip(end as int),
{
    let mut tail = lines.split_off(end);
    let _ = lines.split_off(start);
    let mut copy = copy_texts(block);
    lines.append(&mut copy);
    lines.append(&mut tail);
    assert(text::texts(lines@) =~= text::texts(old(lines)@).take(start as int) + text::texts(
        block@,
    ) + text::texts(old(lines)@).skip(end as int));
}

/// A source with texts in the place of some of its lines, one after the other.
pub fn apply_replacements(source: &str, reps: &[Replacement]) -> (r: String)
    ensures
        r@ == text::joined(
            with_replacements(text::pieces(source@, '\n'), order::views(reps@)),
            "\n"@,
        ),
{
    let ghost start = text::pieces(source@, '\n');
    let ghost all = order::views(reps@);
    let mut lines = split(source, '\n');
    let mut i: usize = 0;
    assert(all.take(0) =~= Seq::<(usize, usize, Seq<char>, u32)>::empty());
    while i < reps.len()
        invariant
            i <= reps@.len(),
            all == order::views(reps@),
            text::texts(lines@) == with_replacements(start, all.take(i as int)),
        decreases reps@.len() - i,
    {
        proof {
            assert(all[i as int] == reps@[i as int]@);
            assert(all.take(i + 1).drop_last() =~= all.take(i as int));
            assert(all.take(i + 1).last() == all[i as int]);
            assert(text::texts(lines@).len() == lines@.len());
        }
        let from: usize = reps[i].start_idx;
        let to: usize = reps[i].end_idx;
        if from < lines.len() && from < to && to <= lines.len() {
            let body = trim_end_matches(reps[i].new_text.as_str(), "\n");
            let block = split(body.as_str(), '\n');
            replace_block(&mut lines, from, to, &block);
        }
        i += 1;
    }
    assert(all.take(i as int) =~= all);
    join(&lines, "\n")
}

impl Ranked for Insertion {
    open spec fn rank_le(a: (usize, Seq<char>, u32), b: (usize, Seq<char>, u32)) -> bool {
        a.0 >= b.0
    }

    fn ranks_at_most(&self, other: &Self) -> bool {
        self.insert_at >= other.insert_at
    }

    proof fn rank_total(a: (usize, Seq<char>, u32), b: (usize, Seq<char>, u32)) {
    }

    proof fn rank_transitive(
        a: (usize, Seq<char>, u32),
        b: (usize, Seq<char>, u32),
        c: (usize, Seq<char>, u32),
    ) {
    }
}

impl Ranked for Replacement {
    open spec fn rank_le(a: (usize, usize, Seq<char>, u32), b: (usize, usize, Seq<char>, u32)) -> bool {
        a.0 >= b.0
    }

    fn ranks_at_most(&self, other: &Self) -> bool {
        self.start_idx >= other.start_idx
    }

    proof fn rank_total(a: (usize, usize, Seq<char>, u32), b: (usize, usize, Seq<char>, u32)) {
    }

    proof fn rank_transitive(
        a: (usize, usize, Seq<char>, u32),
        b: (usize, usize, Seq<char>, u32),
        c: (usize, usize, Seq<char>, u32),
    ) {
    }
}

/// Insertions, the last place first.
pub open spec fn insertions_from_the_end(ins: Seq<(usize, Seq<char>, u32)>) -> Seq<(usize, Seq<char>, u32)> {
    order::stable_sorted(
        ins,
        |a: (usize, Seq<char>, u32), b: (usize, Seq<char>, u32)| <Insertion as Ranked>::rank_le(a, b),
    )
}

/// Replacements, the last place first.
pub open spec fn replacements_from_the_end(reps: Seq<(usize, usize, Seq<char>, u32)>) -> Seq<
    (usize, usize, Seq<char>, u32),
> {
    order::stable_sorted(
        reps,
        |a: (usize, usize, Seq<char>, u32), b: (usize, usize, Seq<char>, u32)|
            <Replacement as Ranked>::rank_le(a, b),
    )
}

/// A source with the insertions of a plan, made from the end so that none moves the
/// place of another.
pub fn insert_docs(source: &str, insertions: Vec<Insertion>) -> (r: String)
    requires
        insertions_fit(text::pieces(source@, '\n'), order::views(insertions@)),
    ensures
        r@ == text::joined(
            with_insertions(
                text::pieces(source@, '\n'),
                insertions_from_the_end(order::views(insertions@)),
            ),
            "\n"@,
        ),
{
    let ghost before = order::views(insertions@);
    let sorted = sort_ranked(insertions);
    let ghost after = order::views(sorted@);
    proof {
        lemma_sorting_keeps_places(before);
        assert(after == insertions_from_the_end(before));
        assert forall|k: int| 0 <= k < after.len() implies (#[trigger] after[k]).0
            <= text::pieces(source@, '\n').len() by {
            assert(before.contains(after[k]));
        }
    }
    apply_insertions(source, sorted.as_slice())
}

proof fn lemma_sorting_keeps_places(ins: Seq<(usize, Seq<char>, u32)>)
    ensures
        forall|k: int|
            0 <= k < insertions_from_the_end(ins).len() ==> ins.contains(
                #[trigger] insertions_from_the_end(ins)[k],
            ),
{
    broadcast use vstd::seq_lib::group_to_multiset_ensures;

    let le = |a: (usize, Seq<char>, u32), b: (usize, Seq<char>, u32)|
        <Insertion as Ranked>::rank_le(a, b);
    order::lemma_stable_sorted(ins, le);
    let after = insertions_from_the_end(ins);
    assert forall|k: int| 0 <= k < after.len() implies ins.contains(#[trigger] after[k]) by {
        assert(after.to_multiset().contains(after[k]));
        assert(ins.to_multiset().contains(after[k]));
    }
}

/// A source with the replacements of a plan, made from the end so that none moves
/// the place of another.
pub fn replace_docs(source: &str, replacements: Vec<Replacement>) -> (r: String)
    ensures
        r@ == text::joined(
            with_replacements(
                text::pieces(source@, '\n'),
                replacements_from_the_end(order::views(replacements@)),
            ),
            "\n"@,
        ),
{
    let sorted = sort_ranked(replacements);
    apply_replacements(source, sorted.as_slice())
}

/// Without edits a source stays as it is.
pub proof fn law_no_edits_leave_the_source(source: Seq<char>)
    ensures
        text::joined(with_insertions(text::pieces(source, '\n'), Seq::empty()), "\n"@) == source,
        text::joined(with_replacements(text::pieces(source, '\n'), Seq::empty()), "\n"@)
            == source,
{
    reveal_strlit("\n");
    assert("\n"@ =~= seq!['\n']);
    text::law_pieces_join_to_the_text(source, '\n');
}

proof fn lemma_block_lines_hold_no_line_end(t: Seq<char>)
    ensures
        forall|k: int| 0 <= k < block_lines(t).len() ==> !(#[trigger] block_lines(t)[k]).contains('\n'),
{
    let body = text::trim_suffixes(t, "\n"@);
    assert forall|k: int| 0 <= k < block_lines(t).len() implies !(
    #[trigger] block_lines(t)[k]).contains('\n') by {
        text::lemma_pieces_hold_no_separator(body, '\n', k);
    }
}

/// A doc comment that is inserted stands whole before its line, and every line of the
/// source stays, in its order.
pub proof fn law_an_insertion_keeps_every_line(
    source: Seq<char>,
    at: usize,
    t: Seq<char>,
    line: u32,
)
    requires
        at <= text::pieces(source, '\n').len(),
    ensures
        ({
            let lines = text::pieces(source, '\n');
            let after = text::joined(with_insertions(lines, seq![(at, t, line)]), "\n"@);
            text::pieces(after, '\n') == lines.take(at as int) + block_lines(t) + lines.skip(
                at as int,
            )
        }),
{
    reveal_strlit("\n");
    assert("\n"@ =~= seq!['\n']);
    let lines = text::pieces(source, '\n');
    let one = seq![(at, t, line)];
    assert(one.drop_last() =~= Seq::<(usize, Seq<char>, u32)>::empty());
    assert(one.last() == (at, t, line));
    assert(with_insertions(lines, one.drop_last()) == lines);
    let after = with_insertions(lines, one);
    assert(after == lines.take(at as int) + block_lines(t) + lines.skip(at as int));
    text::law_pieces_join_to_the_text(source, '\n');
    lemma_block_lines_hold_no_line_end(t);
    assert forall|k: int| 0 <= k < after.len() implies !(#[trigger] after[k]).contains('\n') by {
        let n = block_lines(t).len();
        if k < at {
            text::lemma_pieces_hold_no_separator(source, '\n', k);
        } else if k < at + n {
            assert(after[k] == block_lines(t)[k - at]);
        } else {
            assert(after[k] == lines[k - n]);
            text::lemma_pieces_hold_no_separator(source, '\n', k - n);
        }
    }
    text::law_joined_parts_are_its_pieces(after, '\n');
}

// ---------------------------------------------------------------------------
// The log
// ---------------------------------------------------------------------------

/// An action once its file was written, or could not be.
pub open spec fn settled_action(a: ActionView, write_ok: bool, success: Seq<char>) -> ActionView {
    if write_ok {
        ActionView { status: success, ..a }
    } else {
        ActionView { status: "error:write_failed"@, generated_text: None, ..a }
    }
}

/// Actions of which those at the given places are settled.
pub open spec fn marked(
    actions: Seq<ActionView>,
    indices: Seq<usize>,
    write_ok: bool,
    success: Seq<char>,
) -> Seq<ActionView>
    decreases indices.len(),
{
    if indices.len() == 0 {
        actions
    } else {
        let before = marked(actions, indices.drop_last(), write_ok, success);
        let at = indices.last() as int;
        if at < before.len() {
            before.update(at, settled_action(before[at], write_ok, success))
        } else {
            before
        }
    }
}

/// How many of the places there are.
pub open spec fn places(indices: Seq<usize>, len: nat) -> nat
    decreases indices.len(),
{
    if indices.len() == 0 {
        0
    } else {
        places(indices.drop_last(), len) + if indices.last() < len {
            1nat
        } else {
            0nat
        }
    }
}

fn settle(a: &LogAction, write_ok: bool, success: &str) -> (r: LogAction)
    ensures
        r@ == settled_action(a@, write_ok, success@),
{
    LogAction {
        status: text::either(write_ok, success, "error:write_failed").to_owned(),
        fn_path: a.fn_path.as_str().to_owned(),
        file: a.file.as_str().to_owned(),
        fn_line: a.fn_line,
        intent_class: a.intent_class.as_str().to_owned(),
        generated_text: if write_ok {
            copy_optional(&a.generated_text)
        } else {
            None
        },
    }
}

/// Notes of the actions at the given places whether their file was written.
pub fn mark_actions_after_write(
    actions: &mut Vec<LogAction>,
    indices: &[usize],
    write_ok: bool,
    success_status: &str,
    n_gen: &mut usize,
    n_write_err: &mut usize,
)
    requires
        *old(n_gen) + indices@.len() <= usize::MAX,
        *old(n_write_err) + indices@.len() <= usize::MAX,
    ensures
        action_views(final(actions)@) == marked(
            action_views(old(actions)@),
            indices@,
            write_ok,
            success_status@,
        ),
        *final(n_gen) == *old(n_gen) + if write_ok {
            places(indices@, old(actions)@.len())
        } else {
            0
        },
        *final(n_write_err) == *old(n_write_err) + if write_ok {
            0
        } else {
            places(indices@, old(actions)@.len())
        },
{
    let ghost start = action_views(actions@);
    let ghost len = actions@.len();
    let mut i: usize = 0;
    assert(indices@.take(0) =~= Seq::<usize>::empty());
    while i < indices.len()
        invariant
            i <= indices@.len(),
            actions@.len() == len,
            action_views(actions@) == marked(
                start,
                indices@.take(i as int),
                write_ok,
                success_status@,
            ),
            *n_gen == *old(n_gen) + if write_ok {
                places(indices@.take(i as int), len)
            } else {
                0
            },
            *n_write_err == *old(n_write_err) + if write_ok {
                0
            } else {
                places(indices@.take(i as int), len)
            },
            places(indices@.take(i as int), len) <= i,
            *old(n_gen) + indices@.len() <= usize::MAX,
            *old(n_write_err) + indices@.len() <= usize::MAX,
        decreases indices@.len() - i,
    {
        proof {
            assert(indices@.take(i + 1).drop_last() =~= indices@.take(i as int));
            assert(indices@.take(i + 1).last() == indices@[i as int]);
        }
        let at: usize = indices[i];
        if at < actions.len() {
            let ghost before = action_views(actions@);
            let done = settle(&actions[at], write_ok, success_status);
            actions.set(at, done);
            assert(action_views(actions@) =~= before.update(at as int, done@));
            if write_ok {
                *n_gen = *n_gen + 1;
            } else {
                *n_write_err = *n_write_err + 1;
            }
        }
        i += 1;
    }
    assert(indices@.take(i as int) =~= indices@);
}

/// How many actions have a status.
pub open spec fn status_count(actions: Seq<ActionView>, status: Seq<char>) -> nat
    decreases actions.len(),
{
    if actions.len() == 0 {
        0
    } else {
        status_count(actions.drop_last(), status) + if actions.last().status == status {
            1nat
        } else {
            0nat
        }
    }
}

/// How many actions have a status.
pub fn count_status(actions: &Vec<LogAction>, status: &str) -> (r: usize)
    ensures
        r == status_count(action_views(actions@), status@),
        r <= actions@.len(),
{
    let ghost all = action_views(actions@);
    let mut n: usize = 0;
    let mut i: usize = 0;
    assert(all.take(0) =~= Seq::<ActionView>::empty());
    while i < actions.len()
        invariant
            i <= actions@.len(),
            n <= i,
            all == action_views(actions@),
            n == status_count(all.take(i as int), status@),
        decreases actions@.len() - i,
    {
        proof {
            assert(all.take(i + 1).drop_last() =~= all.take(i as int));
            assert(all.take(i + 1).last() == actions@[i as int]@);
        }
        if same(actions[i].status.as_str(), status) {
            n += 1;
        }
        i += 1;
    }
    assert(all.take(i as int) =~= all);
    n
}

/// A failed write leaves no generated text in the log, and a status that says so.
pub proof fn law_a_failed_write_generates_nothing(
    actions: Seq<ActionView>,
    indices: Seq<usize>,
    success: Seq<char>,
    i: int,
)
    requires
        0 <= i < indices.len(),
        indices[i] < actions.len(),
    ensures
        marked(actions, indices, false, success)[indices[i] as int].status
            == "error:write_failed"@,
        marked(actions, indices, false, success)[indices[i] as int].generated_text is None,
    decreases indices.len(),
{
    lemma_marking_keeps_the_length(actions, indices.drop_last(), false, success);
    if i < indices.len() - 1 {
        law_a_failed_write_generates_nothing(actions, indices.drop_last(), success, i);
    }
}

proof fn lemma_marking_keeps_the_length(
    actions: Seq<ActionView>,
    indices: Seq<usize>,
    write_ok: bool,
    success: Seq<char>,
)
    ensures
        marked(actions, indices, write_ok, success).len() == actions.len(),
    decreases indices.len(),
{
    if indices.len() > 0 {
        lemma_marking_keeps_the_length(actions, indices.drop_last(), write_ok, success);
    }
}

} // verus!
