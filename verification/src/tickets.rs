//! Tickets for large and branchy functions, and their merge into the issues file.

use crate::flags;
use crate::flags::{has_flag, parse_usize_flag, take_flag_value, take_flag_value_or};
use crate::fnv;
use crate::fnv::fnv_text;
use crate::json;
use crate::json::{
    and, array, copy_json, find_member, get_text, members, number, object, set_member, string,
    boolean, string_array, uint, Json, JsonView,
};
use crate::json_text;
use crate::json_text::parse_json;
use crate::order;
use crate::order::{sort_ranked, Ranked};
use crate::semantic::SymbolSummary;
use crate::text;
use crate::text::{
    and_text, count_text, decimal, either, empty_list, hexadecimal_padded, is_blank, join_path,
    same, starts_with, text_at_most, to_lowercase,
};
use vstd::prelude::*;
use vstd::string::*;
use vstd::utf8::*;

verus! {

// ---------------------------------------------------------------------------
// Arguments
// ---------------------------------------------------------------------------

/// What the tickets are made from and where they go.
#[derive(Debug)]
pub struct TicketArgs {
    pub workspace: String,
    pub all_crates: bool,
    pub crate_name: String,
    pub limit: usize,
    pub min_blocks: usize,
    pub min_stmts: usize,
    pub top: usize,
    pub prune: bool,
    pub dry_run: bool,
    pub print: bool,
    pub issues_path: String,
}

/// The issues file: the one that is given, else the usual one of the workspace.
pub open spec fn issues_path_of(args: Seq<Seq<char>>, workspace: Seq<char>) -> Seq<char> {
    match flags::flag_value(args, "--issues"@) {
        Some(p) => p,
        None => text::below(workspace, "ISSUES.json"@),
    }
}

/// What is wrong with the arguments, the first thing first.
pub open spec fn argument_error(args: Seq<Seq<char>>) -> Option<Seq<char>> {
    if flags::flag_value(args, "--workspace"@) is None {
        Some("missing --workspace"@)
    } else if flags::count_flag(args, "--limit"@, 20) is None {
        Some("--limit"@ + " must be an integer"@)
    } else if flags::count_flag(args, "--min-blocks"@, 50) is None {
        Some("--min-blocks"@ + " must be an integer"@)
    } else if flags::count_flag(args, "--min-stmts"@, 200) is None {
        Some("--min-stmts"@ + " must be an integer"@)
    } else if flags::count_flag(args, "--top"@, 3) is None {
        Some("--top"@ + " must be an integer"@)
    } else {
        None
    }
}

/// Whether the arguments say what was read.
pub open spec fn arguments_read(args: Seq<Seq<char>>, a: TicketArgs) -> bool {
    &&& flags::flag_value(args, "--workspace"@) == Some(a.workspace@)
    &&& a.all_crates == args.contains("--all-crates"@)
    &&& a.crate_name@ == flags::flag_value_or(args, "--crate"@, "canon_mini_agent"@)
    &&& flags::count_flag(args, "--limit"@, 20) == Some(a.limit)
    &&& flags::count_flag(args, "--min-blocks"@, 50) == Some(a.min_blocks)
    &&& flags::count_flag(args, "--min-stmts"@, 200) == Some(a.min_stmts)
    &&& flags::count_flag(args, "--top"@, 3) == Some(a.top)
    &&& a.prune == args.contains("--prune"@)
    &&& a.dry_run == args.contains("--dry-run"@)
    &&& a.print == args.contains("--print"@)
    &&& a.issues_path@ == issues_path_of(args, a.workspace@)
}

/// Reads the arguments.
pub fn parse_ticket_args(args: &Vec<String>) -> (r: Result<TicketArgs, String>)
    ensures
        match argument_error(text::texts(args@)) {
            Some(why) => r matches Err(e) && e@ == why,
            None => r matches Ok(a) && arguments_read(text::texts(args@), a),
        },
{
    let workspace = match take_flag_value(args, "--workspace") {
        Some(w) => w,
        None => {
            return Err("missing --workspace".to_owned());
        },
    };
    let limit: usize = match parse_usize_flag(args, "--limit", 20) {
        Ok(n) => n,
        Err(e) => {
            return Err(e);
        },
    };
    let min_blocks: usize = match parse_usize_flag(args, "--min-blocks", 50) {
        Ok(n) => n,
        Err(e) => {
            return Err(e);
        },
    };
    let min_stmts: usize = match parse_usize_flag(args, "--min-stmts", 200) {
        Ok(n) => n,
        Err(e) => {
            return Err(e);
        },
    };
    let top: usize = match parse_usize_flag(args, "--top", 3) {
        Ok(n) => n,
        Err(e) => {
            return Err(e);
        },
    };
    let issues_path = match take_flag_value(args, "--issues") {
        Some(p) => p,
        None => join_path(workspace.as_str(), "ISSUES.json"),
    };
    Ok(
        TicketArgs {
            all_crates: has_flag(args, "--all-crates"),
            crate_name: take_flag_value_or(args, "--crate", "canon_mini_agent"),
            limit,
            min_blocks,
            min_stmts,
            top,
            prune: has_flag(args, "--prune"),
            dry_run: has_flag(args, "--dry-run"),
            print: has_flag(args, "--print"),
            issues_path,
            workspace,
        },
    )
}

/// Whether tickets are made for a crate when they are made for all.
pub fn counts_among_all_crates(name: &str) -> (r: bool)
    ensures
        r == !text::has_prefix(name@, "build_script_"@),
{
    !starts_with(name, "build_script_")
}

// ---------------------------------------------------------------------------
// Tickets
// ---------------------------------------------------------------------------

/// The hash that ticket ids start from.
pub const TICKET_SEED: u64 = 1469598103934665603;

/// The id of the ticket of a family for a symbol of a crate. It depends on nothing
/// else, so that a ticket is found again.
pub open spec fn ticket_id(
    prefix: Seq<char>,
    crate_name: Seq<char>,
    symbol: Seq<char>,
) -> Seq<char> {
    let h = fnv::fnv(TICKET_SEED, encode_utf8(prefix));
    let h = fnv::fnv(h, encode_utf8(crate_name));
    let h = fnv::fnv(h, encode_utf8(symbol));
    prefix + "_"@ + crate_name + "_"@ + text::hex_padded(h as nat, 16)
}

/// The id of the ticket of a family for a symbol of a crate.
pub fn stable_id(prefix: &str, crate_name: &str, symbol: &str) -> (r: String)
    ensures
        r@ == ticket_id(prefix@, crate_name@, symbol@),
{
    let h = fnv_text(TICKET_SEED, prefix);
    let h = fnv_text(h, crate_name);
    let h = fnv_text(h, symbol);
    let mut id = prefix.to_owned();
    id.append("_");
    id.append(crate_name);
    id.append("_");
    id.append(hexadecimal_padded(h, 16).as_str());
    id
}

/// How `str`'s `Debug` shows a text.
pub uninterp spec fn debug_form(s: Seq<char>) -> Seq<char>;

/// `Debug` for `str`, through `format`: the text in quotes, with escapes. It depends
/// on the text alone.
#[verifier::external_body]
fn debug_text(s: &str) -> (r: String)
    ensures
        r@ == debug_form(s@),
{
    format!("{s:?}")
}

/// A count that may not be known, as it is shown.
pub open spec fn shown_count(n: Option<usize>) -> Seq<char> {
    match n {
        Some(n) => "Some("@ + text::dec(n as nat) + ")"@,
        None => "None"@,
    }
}

fn show_count(n: Option<usize>) -> (r: String)
    ensures
        r@ == shown_count(n),
{
    match n {
        Some(n) => {
            let mut t = "Some(".to_owned();
            t.append(count_text(n).as_str());
            t.append(")");
            t
        },
        None => "None".to_owned(),
    }
}

/// A text that may not be known, as it is shown.
pub open spec fn shown_text(s: Option<Seq<char>>) -> Seq<char> {
    match s {
        Some(s) => "Some("@ + debug_form(s) + ")"@,
        None => "None"@,
    }
}

fn show_text(s: &Option<String>) -> (r: String)
    ensures
        r@ == shown_text(text::optional(*s)),
{
    match s {
        Some(s) => {
            let mut t = "Some(".to_owned();
            t.append(debug_text(s.as_str()).as_str());
            t.append(")");
            t
        },
        None => "None".to_owned(),
    }
}

/// A count, nought where it is not known.
pub open spec fn known(n: Option<usize>) -> usize {
    match n {
        Some(n) => n,
        None => 0,
    }
}

fn known_count(n: Option<usize>) -> (r: usize)
    ensures
        r == known(n),
{
    match n {
        Some(n) => n,
        None => 0,
    }
}

/// What a ticket asks for: fewer branches, or a smaller function.
#[derive(Debug, Clone, Copy, PartialEq, Eq, Structural)]
pub enum TicketKind {
    Branch,
    Refactor,
}

/// A ticket, and how it ranks among others.
#[derive(Debug)]
pub struct Ticket {
    pub issue: Json,
    pub id: String,
    pub priority_rank: u32,
    pub score: i64,
}

/// A ticket as a mathematical value.
pub struct TicketView {
    pub issue: JsonView,
    pub id: Seq<char>,
    pub priority_rank: u32,
    pub score: i64,
}

impl View for Ticket {
    type V = TicketView;

    open spec fn view(&self) -> TicketView {
        TicketView {
            issue: self.issue@,
            id: self.id@,
            priority_rank: self.priority_rank,
            score: self.score,
        }
    }
}

/// What a branch ticket says.
pub open spec fn branch_description(crate_name: Seq<char>, s: SymbolSummary) -> Seq<char> {
    "MIR suggests high branch complexity (blocks="@ + shown_count(s.mir_blocks) + ", stmts="@
        + shown_count(s.mir_stmts)
        + ").\n\nGoal: reduce MIR basic blocks while preserving behavior.\nSuggested first actions:\n  - {\"action\":\"symbol_window\",\"crate\":\""@
        + crate_name + "\",\"symbol\":\""@ + s.symbol@
        + "\"}\n  - {\"action\":\"rustc_mir\",\"crate\":\""@ + crate_name
        + "\",\"mode\":\"mir\",\"extra\":\""@ + s.symbol@ + "\"}"@
}

/// What a refactor ticket says.
pub open spec fn refactor_description(crate_name: Seq<char>, s: SymbolSummary) -> Seq<char> {
    "MIR suggests a large function (blocks="@ + shown_count(s.mir_blocks) + ", stmts="@
        + shown_count(s.mir_stmts)
        + ").\n\nGoal: split into helpers / reduce duplication without changing behavior.\nSuggested first actions:\n  - {\"action\":\"symbol_window\",\"crate\":\""@
        + crate_name + "\",\"symbol\":\""@ + s.symbol@
        + "\"}\n  - {\"action\":\"cargo_test\",\"intent\":\"Run focused tests after refactor.\"}"@
}

fn write_description(kind: TicketKind, crate_name: &str, s: &SymbolSummary) -> (r: String)
    ensures
        r@ == match kind {
            TicketKind::Branch => branch_description(crate_name@, *s),
            TicketKind::Refactor => refactor_description(crate_name@, *s),
        },
{
    let blocks = show_count(s.mir_blocks);
    let stmts = show_count(s.mir_stmts);
    let symbol = s.symbol.as_str();
    match kind {
        TicketKind::Branch => {
            let mut t = "MIR suggests high branch complexity (blocks=".to_owned();
            t.append(blocks.as_str());
            t.append(", stmts=");
            t.append(stmts.as_str());
            t.append(
                ").\n\nGoal: reduce MIR basic blocks while preserving behavior.\nSuggested first actions:\n  - {\"action\":\"symbol_window\",\"crate\":\"",
            );
            t.append(crate_name);
            t.append("\",\"symbol\":\"");
            t.append(symbol);
            t.append("\"}\n  - {\"action\":\"rustc_mir\",\"crate\":\"");
            t.append(crate_name);
            t.append("\",\"mode\":\"mir\",\"extra\":\"");
            t.append(symbol);
            t.append("\"}");
            t
        },
        TicketKind::Refactor => {
            let mut t = "MIR suggests a large function (blocks=".to_owned();
            t.append(blocks.as_str());
            t.append(", stmts=");
            t.append(stmts.as_str());
            t.append(
                ").\n\nGoal: split into helpers / reduce duplication without changing behavior.\nSuggested first actions:\n  - {\"action\":\"symbol_window\",\"crate\":\"",
            );
            t.append(crate_name);
            t.append("\",\"symbol\":\"");
            t.append(symbol);
            t.append(
                "\"}\n  - {\"action\":\"cargo_test\",\"intent\":\"Run focused tests after refactor.\"}",
            );
            t
        },
    }
}

/// What a ticket rests on.
pub open spec fn evidence(crate_name: Seq<char>, s: SymbolSummary) -> Seq<Seq<char>> {
    text::no_texts().push("crate="@ + crate_name).push(
        "file="@ + s.file@ + " line="@ + text::dec(s.line as nat),
    ).push(
        "mir: fingerprint="@ + shown_text(text::optional(s.mir_fingerprint)) + " blocks="@
            + shown_count(s.mir_blocks) + " stmts="@ + shown_count(s.mir_stmts),
    ).push(
        "call_graph: callers="@ + text::dec(s.call_in as nat) + " callees="@ + text::dec(
            s.call_out as nat,
        ),
    )
}

fn write_evidence(crate_name: &str, s: &SymbolSummary) -> (r: Vec<String>)
    ensures
        text::texts(r@) == evidence(crate_name@, *s),
{
    let mut e1 = "crate=".to_owned();
    e1.append(crate_name);
    let mut e2 = "file=".to_owned();
    e2.append(s.file.as_str());
    e2.append(" line=");
    e2.append(decimal(s.line as u64).as_str());
    let mut e3 = "mir: fingerprint=".to_owned();
    e3.append(show_text(&s.mir_fingerprint).as_str());
    e3.append(" blocks=");
    e3.append(show_count(s.mir_blocks).as_str());
    e3.append(" stmts=");
    e3.append(show_count(s.mir_stmts).as_str());
    let mut e4 = "call_graph: callers=".to_owned();
    e4.append(count_text(s.call_in).as_str());
    e4.append(" callees=");
    e4.append(count_text(s.call_out).as_str());
    let list = and_text(empty_list(), e1);
    let list = and_text(list, e2);
    let list = and_text(list, e3);
    and_text(list, e4)
}

/// The ticket of a kind for a symbol.
pub open spec fn ticket(kind: TicketKind, crate_name: Seq<char>, s: SymbolSummary) -> TicketView {
    let (prefix, title, description, rank, size, priority) = match kind {
        TicketKind::Branch => (
            "auto_branch_reduce"@,
            "Reduce branch complexity: "@ + s.symbol@,
            branch_description(crate_name, s),
            1u32,
            known(s.mir_blocks),
            "medium"@,
        ),
        TicketKind::Refactor => (
            "auto_refactor_split"@,
            "Mechanical refactor: split/DRY "@ + s.symbol@,
            refactor_description(crate_name, s),
            2u32,
            known(s.mir_stmts),
            "low"@,
        ),
    };
    let id = ticket_id(prefix, crate_name, s.symbol@);
    TicketView {
        issue: JsonView::Object(
            json::no_members().push(("description"@, JsonView::Text(description))).push(
                ("discovered_by"@, JsonView::Text("tickets"@)),
            ).push(("evidence"@, json::text_array_view(evidence(crate_name, s)))).push(
                ("id"@, JsonView::Text(id)),
            ).push(("kind"@, JsonView::Text("performance"@))).push(
                ("location"@, JsonView::Text(s.file@ + ":"@ + text::dec(s.line as nat))),
            ).push(("priority"@, JsonView::Text(priority))).push(
                ("status"@, JsonView::Text("open"@)),
            ).push(("title"@, JsonView::Text(title))),
        ),
        id,
        priority_rank: rank,
        score: size as i64,
    }
}

/// The ticket of a kind for a symbol.
pub fn build_ticket(kind: TicketKind, crate_name: &str, s: &SymbolSummary) -> (r: Ticket)
    ensures
        r@ == ticket(kind, crate_name@, *s),
{
    let branch = kind == TicketKind::Branch;
    let prefix = either(branch, "auto_branch_reduce", "auto_refactor_split");
    let id = stable_id(prefix, crate_name, s.symbol.as_str());
    let mut title = either(
        branch,
        "Reduce branch complexity: ",
        "Mechanical refactor: split/DRY ",
    ).to_owned();
    title.append(s.symbol.as_str());
    let mut location = s.file.as_str().to_owned();
    location.append(":");
    location.append(decimal(s.line as u64).as_str());
    let description = write_description(kind, crate_name, s);
    let evidence = write_evidence(crate_name, s);
    let ms = and(members(), "description", string(description.as_str()));
    let ms = and(ms, "discovered_by", string("tickets"));
    let ms = and(ms, "evidence", string_array(&evidence));
    let ms = and(ms, "id", string(id.as_str()));
    let ms = and(ms, "kind", string("performance"));
    let ms = and(ms, "location", string(location.as_str()));
    let ms = and(ms, "priority", string(either(branch, "medium", "low")));
    let ms = and(ms, "status", string("open"));
    let ms = and(ms, "title", string(title.as_str()));
    let size: usize = match kind {
        TicketKind::Branch => known_count(s.mir_blocks),
        TicketKind::Refactor => known_count(s.mir_stmts),
    };
    let priority_rank: u32 = match kind {
        TicketKind::Branch => 1,
        TicketKind::Refactor => 2,
    };
    Ticket { issue: object(ms), id, priority_rank, score: size as i64 }
}

// ---------------------------------------------------------------------------
// Candidates
// ---------------------------------------------------------------------------

/// A symbol and its size.
#[derive(Debug, Clone, Copy)]
pub struct SizedSymbol {
    pub size: usize,
    pub index: usize,
}

impl View for SizedSymbol {
    type V = SizedSymbol;

    open spec fn view(&self) -> SizedSymbol {
        *self
    }
}

impl Ranked for SizedSymbol {
    open spec fn rank_le(a: SizedSymbol, b: SizedSymbol) -> bool {
        a.size >= b.size
    }

    fn ranks_at_most(&self, other: &Self) -> bool {
        self.size >= other.size
    }

    proof fn rank_total(a: SizedSymbol, b: SizedSymbol) {
    }

    proof fn rank_transitive(a: SizedSymbol, b: SizedSymbol, c: SizedSymbol) {
    }
}

/// The size of a symbol that a kind of ticket looks at.
pub open spec fn size_of(kind: TicketKind, s: SymbolSummary) -> usize {
    match kind {
        TicketKind::Branch => known(s.mir_blocks),
        TicketKind::Refactor => known(s.mir_stmts),
    }
}

/// The first `n` symbols, those that are functions of at least a size.
pub open spec fn large(
    kind: TicketKind,
    summaries: Seq<SymbolSummary>,
    min: usize,
    n: nat,
) -> Seq<SizedSymbol>
    decreases n,
{
    if n == 0 || n > summaries.len() {
        Seq::empty()
    } else {
        let before = large(kind, summaries, min, (n - 1) as nat);
        let s = summaries[n - 1];
        if s.kind@ == "fn"@ && size_of(kind, s) >= min {
            before.push(SizedSymbol { size: size_of(kind, s), index: (n - 1) as usize })
        } else {
            before
        }
    }
}

/// Symbols by size, the largest first.
pub open spec fn by_size(s: Seq<SizedSymbol>) -> Seq<SizedSymbol> {
    order::stable_sorted(
        s,
        |a: SizedSymbol, b: SizedSymbol| <SizedSymbol as Ranked>::rank_le(a, b),
    )
}

/// The functions of at least a size, the largest first.
pub open spec fn candidates(kind: TicketKind, summaries: Seq<SymbolSummary>, min: usize) -> Seq<
    SizedSymbol,
> {
    by_size(large(kind, summaries, min, summaries.len()))
}

/// The functions of at least a size, the largest first.
pub fn find_candidates(kind: TicketKind, summaries: &Vec<SymbolSummary>, min: usize) -> (r: Vec<
    SizedSymbol,
>)
    ensures
        r@ == candidates(kind, summaries@, min),
        forall|k: int| 0 <= k < r@.len() ==> (#[trigger] r@[k]).index < summaries@.len(),
{
    let mut found: Vec<SizedSymbol> = Vec::new();
    let mut i: usize = 0;
    while i < summaries.len()
        invariant
            i <= summaries@.len(),
            found@ == large(kind, summaries@, min, i as nat),
            forall|k: int| 0 <= k < found@.len() ==> (#[trigger] found@[k]).index < summaries@.len(),
        decreases summaries@.len() - i,
    {
        let s = &summaries[i];
        let size: usize = match kind {
            TicketKind::Branch => known_count(s.mir_blocks),
            TicketKind::Refactor => known_count(s.mir_stmts),
        };
        if same(s.kind.as_str(), "fn") && size >= min {
            found.push(SizedSymbol { size, index: i });
        }
        i += 1;
    }
    let ghost before = found@;
    assert(order::views(before) =~= before);
    let sorted = sort_ranked(found);
    proof {
        assert(order::views(sorted@) =~= sorted@);
        lemma_sorting_keeps_members(before);
        assert forall|k: int| 0 <= k < sorted@.len() implies (#[trigger] sorted@[k]).index
            < summaries@.len() by {
            assert(sorted@[k] == by_size(before)[k]);
            assert(before.contains(by_size(before)[k]));
        }
    }
    sorted
}

proof fn lemma_sorting_keeps_members(s: Seq<SizedSymbol>)
    ensures
        forall|k: int| 0 <= k < by_size(s).len() ==> s.contains(#[trigger] by_size(s)[k]),
{
    broadcast use vstd::seq_lib::group_to_multiset_ensures;

    let le = |a: SizedSymbol, b: SizedSymbol| <SizedSymbol as Ranked>::rank_le(a, b);
    order::lemma_stable_sorted(s, le);
    let after = by_size(s);
    assert forall|k: int| 0 <= k < after.len() implies s.contains(#[trigger] after[k]) by {
        assert(after.to_multiset().contains(after[k]));
        assert(s.to_multiset().contains(after[k]));
    }
}

/// The tickets of a kind for the largest functions.
pub open spec fn tickets_of(
    kind: TicketKind,
    crate_name: Seq<char>,
    summaries: Seq<SymbolSummary>,
    min: usize,
    limit: usize,
) -> Seq<TicketView> {
    let found = candidates(kind, summaries, min);
    Seq::new(
        if limit < found.len() {
            limit as nat
        } else {
            found.len()
        },
        |i: int| ticket(kind, crate_name, summaries[found[i].index as int]),
    )
}

/// The tickets of a kind for the largest functions, and how many functions are large.
pub fn build_issues_for_symbols(
    kind: TicketKind,
    crate_name: &str,
    summaries: &Vec<SymbolSummary>,
    min: usize,
    limit: usize,
) -> (r: (Vec<Ticket>, usize))
    ensures
        order::views(r.0@) == tickets_of(kind, crate_name@, summaries@, min, limit),
        r.1 == candidates(kind, summaries@, min).len(),
{
    let found = find_candidates(kind, summaries, min);
    let mut out: Vec<Ticket> = Vec::new();
    let mut i: usize = 0;
    while i < found.len() && i < limit
        invariant
            i <= found@.len(),
            i <= limit,
            found@ == candidates(kind, summaries@, min),
            forall|k: int| 0 <= k < found@.len() ==> (#[trigger] found@[k]).index < summaries@.len(),
            out@.len() == i,
            forall|k: int|
                0 <= k < i ==> (#[trigger] out@[k])@ == ticket(
                    kind,
                    crate_name@,
                    summaries@[found@[k].index as int],
                ),
        decreases found@.len() - i,
    {
        assert(found@[i as int].index < summaries@.len());
        out.push(build_ticket(kind, crate_name, &summaries[found[i].index]));
        i += 1;
    }
    assert(order::views(out@) =~= tickets_of(kind, crate_name@, summaries@, min, limit));
    (out, found.len())
}

/// The tickets for a crate: those on branches before those on size.
pub open spec fn crate_tickets(
    crate_name: Seq<char>,
    summaries: Seq<SymbolSummary>,
    a: TicketArgs,
) -> Seq<TicketView> {
    tickets_of(TicketKind::Branch, crate_name, summaries, a.min_blocks, a.limit) + tickets_of(
        TicketKind::Refactor,
        crate_name,
        summaries,
        a.min_stmts,
        a.limit,
    )
}

/// How many functions of a crate were looked at.
pub open spec fn candidate_summary(summaries: Seq<SymbolSummary>, a: TicketArgs) -> JsonView {
    JsonView::Object(
        json::no_members().push(
            (
                "branch_candidates"@,
                JsonView::Uint(
                    candidates(TicketKind::Branch, summaries, a.min_blocks).len() as u64,
                ),
            ),
        ).push(
            (
                "refactor_candidates"@,
                JsonView::Uint(
                    candidates(TicketKind::Refactor, summaries, a.min_stmts).len() as u64,
                ),
            ),
        ).push(("symbols_with_defs"@, JsonView::Uint(summaries.len() as u64))),
    )
}

/// The tickets for a crate, and how many functions were looked at.
pub fn collect_issues_for_crate(
    crate_name: &str,
    summaries: &Vec<SymbolSummary>,
    a: &TicketArgs,
) -> (r: (Vec<Ticket>, Json))
    ensures
        order::views(r.0@) == crate_tickets(crate_name@, summaries@, *a),
        r.1@ == candidate_summary(summaries@, *a),
{
    let (branch, branches) = build_issues_for_symbols(
        TicketKind::Branch,
        crate_name,
        summaries,
        a.min_blocks,
        a.limit,
    );
    let (refactor, refactors) = build_issues_for_symbols(
        TicketKind::Refactor,
        crate_name,
        summaries,
        a.min_stmts,
        a.limit,
    );
    let ms = and(members(), "branch_candidates", uint(branches));
    let ms = and(ms, "refactor_candidates", uint(refactors));
    let ms = and(ms, "symbols_with_defs", uint(summaries.len()));
    let mut all = branch;
    let mut more = refactor;
    let ghost b = all@;
    let ghost m = more@;
    all.append(&mut more);
    assert(order::views(all@) =~= order::views(b) + order::views(m));
    (all, object(ms))
}

// ---------------------------------------------------------------------------
// Selection
// ---------------------------------------------------------------------------

impl Ranked for Ticket {
    open spec fn rank_le(a: TicketView, b: TicketView) -> bool {
        a.priority_rank < b.priority_rank || (a.priority_rank == b.priority_rank && (a.score
            > b.score || (a.score == b.score && text::text_le(a.id, b.id))))
    }

    fn ranks_at_most(&self, other: &Self) -> bool {
        self.priority_rank < other.priority_rank || (self.priority_rank == other.priority_rank && (
        self.score > other.score || (self.score == other.score && text_at_most(
            self.id.as_str(),
            other.id.as_str(),
        ))))
    }

    proof fn rank_total(a: TicketView, b: TicketView) {
        text::lemma_text_le_total(a.id, b.id);
    }

    proof fn rank_transitive(a: TicketView, b: TicketView, c: TicketView) {
        if text::text_le(a.id, b.id) && text::text_le(b.id, c.id) {
            text::lemma_text_le_transitive(a.id, b.id, c.id);
        }
    }
}

/// The place of the last ticket with an id.
pub open spec fn last_ticket(tickets: Seq<TicketView>, id: Seq<char>) -> int
    decreases tickets.len(),
{
    if tickets.len() == 0 || tickets.last().id == id {
        tickets.len() - 1
    } else {
        last_ticket(tickets.drop_last(), id)
    }
}

/// A ticket with the rank of the last one that has its id.
pub open spec fn ranked_as_last(tickets: Seq<TicketView>, t: TicketView) -> TicketView {
    let last = tickets[last_ticket(tickets, t.id)];
    TicketView { priority_rank: last.priority_rank, score: last.score, ..t }
}

/// The first tickets by priority, by size and by id; all of them where `top` is
/// nought. Tickets of one id rank alike.
pub open spec fn selected(tickets: Seq<TicketView>, top: usize) -> Seq<TicketView> {
    let sorted = order::stable_sorted(
        tickets.map_values(|t: TicketView| ranked_as_last(tickets, t)),
        |a: TicketView, b: TicketView| <Ticket as Ranked>::rank_le(a, b),
    );
    if top > 0 && sorted.len() > top {
        sorted.take(top as int)
    } else {
        sorted
    }
}

fn find_last_ticket(tickets: &Vec<Ticket>, at: usize) -> (r: usize)
    requires
        at < tickets@.len(),
    ensures
        r < tickets@.len(),
        r == last_ticket(order::views(tickets@), tickets@[at as int].id@),
{
    let ghost all = order::views(tickets@);
    let ghost id = tickets@[at as int].id@;
    let mut i: usize = tickets.len();
    assert(all.take(i as int) =~= all);
    while i > at + 1
        invariant
            at + 1 <= i <= tickets@.len(),
            all == order::views(tickets@),
            id == tickets@[at as int].id@,
            last_ticket(all, id) == last_ticket(all.take(i as int), id),
        decreases i,
    {
        proof {
            assert(all.take(i as int).drop_last() =~= all.take(i - 1));
            assert(all.take(i as int).last() == tickets@[i - 1]@);
        }
        if same(tickets[i - 1].id.as_str(), tickets[at].id.as_str()) {
            return i - 1;
        }
        i -= 1;
    }
    assert(all.take(i as int).last() == tickets@[at as int]@);
    at
}

/// The first tickets by priority, by size and by id.
pub fn sort_and_truncate_issues(new_issues: Vec<Ticket>, top: usize) -> (r: Vec<Ticket>)
    ensures
        order::views(r@) == selected(order::views(new_issues@), top),
{
    let ghost before = order::views(new_issues@);
    let mut ranked: Vec<Ticket> = Vec::new();
    let mut i: usize = 0;
    while i < new_issues.len()
        invariant
            i <= new_issues@.len(),
            before == order::views(new_issues@),
            ranked@.len() == i,
            forall|k: int|
                0 <= k < i ==> (#[trigger] ranked@[k])@ == ranked_as_last(before, before[k]),
        decreases new_issues@.len() - i,
    {
        let last = find_last_ticket(&new_issues, i);
        assert(before[last as int] == new_issues@[last as int]@);
        assert(before[i as int] == new_issues@[i as int]@);
        ranked.push(
            Ticket {
                issue: copy_json(&new_issues[i].issue),
                id: new_issues[i].id.as_str().to_owned(),
                priority_rank: new_issues[last].priority_rank,
                score: new_issues[last].score,
            },
        );
        i += 1;
    }
    assert(order::views(ranked@) =~= before.map_values(
        |t: TicketView| ranked_as_last(before, t),
    ));
    let mut sorted = sort_ranked(ranked);
    let ghost all = sorted@;
    if top > 0 && sorted.len() > top {
        sorted.truncate(top);
        assert(order::views(sorted@) =~= order::views(all).take(top as int));
    }
    sorted
}

// ---------------------------------------------------------------------------
// The issues file
// ---------------------------------------------------------------------------

/// An issues file without issues.
pub open spec fn empty_root() -> JsonView {
    JsonView::Object(
        json::no_members().push(("issues"@, JsonView::Array(Seq::empty()))).push(
            ("version"@, JsonView::Uint(0)),
        ),
    )
}

fn new_root() -> (r: Json)
    ensures
        r@ == empty_root(),
{
    let none: Vec<Json> = Vec::new();
    let list = array(none);
    assert(list@->Array_0 =~= Seq::<JsonView>::empty());
    let ms = and(members(), "issues", list);
    let ms = and(ms, "version", number(0));
    object(ms)
}

/// What an issues file holds. One that is empty, or no JSON, holds no issues.
pub open spec fn loaded(raw: Seq<char>) -> JsonView {
    if text::blank(raw) {
        empty_root()
    } else {
        match json_text::read(raw) {
            Some(v) => v,
            None => empty_root(),
        }
    }
}

/// Reads an issues file.
pub fn load_issues(raw: &str) -> (r: Json)
    ensures
        r@ == loaded(raw@),
{
    if is_blank(raw) {
        return new_root();
    }
    match parse_json(raw) {
        Some(v) => v,
        None => new_root(),
    }
}

/// An issues file with a version and a list of issues.
pub open spec fn shaped(root: JsonView) -> JsonView {
    match root {
        JsonView::Object(ms) => {
            let ms = if json::member(ms, "version"@) is Some {
                ms
            } else {
                json::with_member(ms, "version"@, JsonView::Uint(0))
            };
            let ms = if json::member(ms, "issues"@) matches Some(JsonView::Array(_)) {
                ms
            } else {
                json::with_member(ms, "issues"@, JsonView::Array(Seq::empty()))
            };
            JsonView::Object(ms)
        },
        _ => empty_root(),
    }
}

/// Gives an issues file a version and a list of issues, where it has none.
pub fn ensure_shape(root: Json) -> (r: Json)
    ensures
        r@ == shaped(root@),
{
    proof {
        json::lemma_json_view(root);
    }
    match root {
        Json::Object(held) => {
            let mut ms = held;
            if find_member(&ms, "version").is_none() {
                set_member(&mut ms, "version", number(0));
            }
            let listed = match find_member(&ms, "issues") {
                Some(i) => {
                    proof {
                        json::lemma_json_view(ms@[i as int].1);
                    }
                    match &ms[i].1 {
                        Json::Array(_) => true,
                        _ => false,
                    }
                },
                None => false,
            };
            if !listed {
                let none: Vec<Json> = Vec::new();
                let list = array(none);
                assert(list@->Array_0 =~= Seq::<JsonView>::empty());
                set_member(&mut ms, "issues", list);
            }
            object(ms)
        },
        _ => new_root(),
    }
}

/// A shaped file has a version and a list of issues, and shaping it again changes
/// nothing.
pub proof fn law_a_shaped_file_is_shaped(root: JsonView)
    ensures
        json::field(shaped(root), "version"@) is Some,
        json::field(shaped(root), "issues"@) matches Some(JsonView::Array(_)),
        shaped(shaped(root)) == shaped(root),
{
    reveal_strlit("version");
    reveal_strlit("issues");
    assert("version"@.len() == 7 && "issues"@.len() == 6);
    match root {
        JsonView::Object(ms) => {
            json::law_member_reads_what_was_written(
                ms,
                "version"@,
                JsonView::Uint(0),
                "version"@,
            );
            let ms1 = if json::member(ms, "version"@) is Some {
                ms
            } else {
                json::with_member(ms, "version"@, JsonView::Uint(0))
            };
            json::law_member_reads_what_was_written(
                ms1,
                "issues"@,
                JsonView::Array(Seq::empty()),
                "issues"@,
            );
            json::law_member_reads_what_was_written(
                ms1,
                "issues"@,
                JsonView::Array(Seq::empty()),
                "version"@,
            );
        },
        _ => {
            reveal_with_fuel(json::member, 3);
            let ms = empty_root()->Object_0;
            assert(ms.first() == ("issues"@, JsonView::Array(Seq::empty())));
            assert(ms.drop_first().first() == ("version"@, JsonView::Uint(0)));
            assert(json::member(ms, "issues"@) == Some(JsonView::Array(Seq::empty())));
            assert(json::member(ms, "version"@) == Some(JsonView::Uint(0)));
        },
    }
}

// ---------------------------------------------------------------------------
// Merge
// ---------------------------------------------------------------------------

/// The id of an issue.
pub open spec fn id_of(issue: JsonView) -> Option<Seq<char>> {
    json::text_field(issue, "id"@)
}

/// The place of the last issue with an id.
pub open spec fn place_of(issues: Seq<JsonView>, id: Seq<char>) -> Option<int>
    decreases issues.len(),
{
    if issues.len() == 0 {
        None
    } else if id_of(issues.last()) == Some(id) {
        Some(issues.len() - 1)
    } else {
        place_of(issues.drop_last(), id)
    }
}

/// Issues into which others were merged, with the ids of those that were added and
/// of those that were updated, and the issues that were applied.
pub struct Merged {
    pub issues: Seq<JsonView>,
    pub added: Seq<Seq<char>>,
    pub updated: Seq<Seq<char>>,
    pub applied: Seq<JsonView>,
}

/// Issues into which others were merged, one after the other: an issue takes the
/// place of the one with its id, else comes last. One without an id is passed over.
pub open spec fn merged(issues: Seq<JsonView>, new: Seq<JsonView>) -> Merged
    decreases new.len(),
{
    if new.len() == 0 {
        Merged {
            issues,
            added: Seq::empty(),
            updated: Seq::empty(),
            applied: Seq::empty(),
        }
    } else {
        let before = merged(issues, new.drop_last());
        match id_of(new.last()) {
            None => before,
            Some(id) => match place_of(before.issues, id) {
                Some(i) => Merged {
                    issues: before.issues.update(i, new.last()),
                    updated: before.updated.push(id),
                    applied: before.applied.push(new.last()),
                    ..before
                },
                None => Merged {
                    issues: before.issues.push(new.last()),
                    added: before.added.push(id),
                    applied: before.applied.push(new.last()),
                    ..before
                },
            },
        }
    }
}

/// The issues that a merge applied, and the ids of those that were new and of those
/// that were not.
#[derive(Debug)]
pub struct MergeAppliedIssues {
    pub added_ids: Vec<String>,
    pub updated_ids: Vec<String>,
    pub applied_issue_objects: Vec<Json>,
}

fn find_place(issues: &Vec<Json>, id: &str) -> (r: Option<usize>)
    ensures
        match place_of(json::items_view(issues@), id@) {
            Some(i) => r matches Some(n) && n == i && n < issues@.len(),
            None => r is None,
        },
{
    let ghost all = json::items_view(issues@);
    let mut i: usize = issues.len();
    assert(all.take(i as int) =~= all);
    while i > 0
        invariant
            i <= issues@.len(),
            all == json::items_view(issues@),
            place_of(all, id@) == place_of(all.take(i as int), id@),
        decreases i,
    {
        proof {
            assert(all.take(i as int).drop_last() =~= all.take(i - 1));
            assert(all.take(i as int).last() == issues@[i - 1]@);
        }
        match get_text(&issues[i - 1], "id") {
            Some(found) => {
                if same(found, id) {
                    return Some(i - 1);
                }
            },
            None => {},
        }
        i -= 1;
    }
    None
}

/// Merges issues into a list.
pub fn merge_generated_issues(issues: &mut Vec<Json>, new_issues: &Vec<Json>) -> (r:
    MergeAppliedIssues)
    ensures
        ({
            let m = merged(json::items_view(old(issues)@), json::items_view(new_issues@));
            &&& json::items_view(final(issues)@) == m.issues
            &&& text::texts(r.added_ids@) == m.added
            &&& text::texts(r.updated_ids@) == m.updated
            &&& json::items_view(r.applied_issue_objects@) == m.applied
        }),
{
    let ghost start = json::items_view(issues@);
    let ghost all = json::items_view(new_issues@);
    let mut added_ids: Vec<String> = Vec::new();
    let mut updated_ids: Vec<String> = Vec::new();
    let mut applied: Vec<Json> = Vec::new();
    let mut i: usize = 0;
    proof {
        assert(all.take(0) =~= Seq::<JsonView>::empty());
        assert(text::texts(added_ids@) =~= Seq::<Seq<char>>::empty());
        assert(text::texts(updated_ids@) =~= Seq::<Seq<char>>::empty());
        assert(json::items_view(applied@) =~= Seq::<JsonView>::empty());
    }
    while i < new_issues.len()
        invariant
            i <= new_issues@.len(),
            all == json::items_view(new_issues@),
            json::items_view(issues@) == merged(start, all.take(i as int)).issues,
            text::texts(added_ids@) == merged(start, all.take(i as int)).added,
            text::texts(updated_ids@) == merged(start, all.take(i as int)).updated,
            json::items_view(applied@) == merged(start, all.take(i as int)).applied,
        decreases new_issues@.len() - i,
    {
        proof {
            assert(all.take(i + 1).drop_last() =~= all.take(i as int));
            assert(all.take(i + 1).last() == new_issues@[i as int]@);
        }
        let issue = &new_issues[i];
        match get_text(issue, "id") {
            Some(id) => {
                let ghost before = json::items_view(issues@);
                let ghost a = text::texts(added_ids@);
                let ghost u = text::texts(updated_ids@);
                let ghost p = json::items_view(applied@);
                match find_place(issues, id) {
                    Some(n) => {
                        let copy = copy_json(issue);
                        issues.set(n, copy);
                        assert(json::items_view(issues@) =~= before.update(n as int, issue@));
                        updated_ids.push(id.to_owned());
                        assert(text::texts(updated_ids@) =~= u.push(id@));
                    },
                    None => {
                        let copy = copy_json(issue);
                        issues.push(copy);
                        assert(json::items_view(issues@) =~= before.push(issue@));
                        added_ids.push(id.to_owned());
                        assert(text::texts(added_ids@) =~= a.push(id@));
                    },
                }
                let copy = copy_json(issue);
                applied.push(copy);
                assert(json::items_view(applied@) =~= p.push(issue@));
            },
            None => {},
        }
        i += 1;
    }
    assert(all.take(i as int) =~= all);
    MergeAppliedIssues { added_ids, updated_ids, applied_issue_objects: applied }
}

proof fn lemma_place(issues: Seq<JsonView>, id: Seq<char>)
    ensures
        match place_of(issues, id) {
            Some(i) => 0 <= i < issues.len() && id_of(issues[i]) == Some(id),
            None => forall|k: int| 0 <= k < issues.len() ==> id_of(#[trigger] issues[k]) != Some(id),
        },
    decreases issues.len(),
{
    if issues.len() > 0 {
        lemma_place(issues.drop_last(), id);
        if id_of(issues.last()) != Some(id) {
            match place_of(issues.drop_last(), id) {
                Some(i) => {
                    assert(issues.drop_last()[i] == issues[i]);
                },
                None => {
                    assert forall|k: int| 0 <= k < issues.len() implies id_of(
                        #[trigger] issues[k],
                    ) != Some(id) by {
                        if k < issues.len() - 1 {
                            assert(issues.drop_last()[k] == issues[k]);
                        }
                    }
                },
            }
        }
    }
}

/// A merge takes no issue away and forgets no id: what had a place keeps it, under
/// the same id.
pub proof fn law_a_merge_keeps_places(issues: Seq<JsonView>, new: Seq<JsonView>)
    ensures
        ({
            let m = merged(issues, new);
            &&& m.issues.len() == issues.len() + m.added.len()
            &&& m.applied.len() == m.added.len() + m.updated.len()
            &&& forall|k: int|
                0 <= k < issues.len() ==> id_of(#[trigger] m.issues[k]) == id_of(issues[k])
        }),
    decreases new.len(),
{
    if new.len() > 0 {
        law_a_merge_keeps_places(issues, new.drop_last());
        let before = merged(issues, new.drop_last());
        match id_of(new.last()) {
            Some(id) => {
                lemma_place(before.issues, id);
            },
            None => {},
        }
    }
}

// ---------------------------------------------------------------------------
// Pruning
// ---------------------------------------------------------------------------

/// Whether an issue was generated here.
pub open spec fn generated(issue: JsonView) -> bool {
    &&& id_of(issue) matches Some(id)
    &&& text::has_prefix(id, "auto_branch_reduce_"@) || text::has_prefix(
        id,
        "auto_refactor_split_"@,
    )
    &&& json::text_field(issue, "discovered_by"@) == Some("tickets"@)
}

/// Whether one of the issues has an id.
pub open spec fn names(issues: Seq<JsonView>, id: Option<Seq<char>>) -> bool {
    exists|i: int| 0 <= i < issues.len() && id_of(#[trigger] issues[i]) == id
}

/// Whether an issue is kept: one that was generated here is, where it was applied.
pub open spec fn kept(issue: JsonView, applied: Seq<JsonView>) -> bool {
    !generated(issue) || names(applied, id_of(issue))
}

/// The issues that are kept.
pub open spec fn pruned(issues: Seq<JsonView>, applied: Seq<JsonView>) -> Seq<JsonView> {
    issues.filter(|issue: JsonView| kept(issue, applied))
}

fn is_kept(issue: &Json, applied: &Vec<Json>) -> (r: bool)
    ensures
        r == kept(issue@, json::items_view(applied@)),
{
    let id = match get_text(issue, "id") {
        Some(id) => id,
        None => {
            return true;
        },
    };
    if !(starts_with(id, "auto_branch_reduce_") || starts_with(id, "auto_refactor_split_")) {
        return true;
    }
    match get_text(issue, "discovered_by") {
        Some(by) => {
            if !same(by, "tickets") {
                return true;
            }
        },
        None => {
            return true;
        },
    }
    let ghost all = json::items_view(applied@);
    let mut i: usize = 0;
    while i < applied.len()
        invariant
            i <= applied@.len(),
            all == json::items_view(applied@),
            id_of(issue@) == Some(id@),
            forall|k: int| 0 <= k < i ==> id_of(#[trigger] all[k]) != Some(id@),
        decreases applied@.len() - i,
    {
        assert(all[i as int] == applied@[i as int]@);
        match get_text(&applied[i], "id") {
            Some(found) => {
                if same(found, id) {
                    assert(id_of(all[i as int]) == Some(id@));
                    return true;
                }
            },
            None => {},
        }
        i += 1;
    }
    false
}

/// Takes out the issues that were generated here and are no longer applied, where
/// that is asked for. Says how many there were.
pub fn prune_stale_generated_issues(issues: Vec<Json>, applied: &Vec<Json>, prune: bool) -> (r: (
    Vec<Json>,
    usize,
))
    ensures
        json::items_view(r.0@) == if prune {
            pruned(json::items_view(issues@), json::items_view(applied@))
        } else {
            json::items_view(issues@)
        },
        r.1 == issues@.len() - r.0@.len(),
{
    if !prune {
        return (issues, 0);
    }
    let ghost all = json::items_view(issues@);
    let ghost keep = |issue: JsonView| kept(issue, json::items_view(applied@));
    let mut out: Vec<Json> = Vec::new();
    let mut dropped: usize = 0;
    proof {
        reveal(Seq::filter);
        assert(all.take(0) =~= Seq::<JsonView>::empty());
        assert(json::items_view(out@) =~= all.take(0).filter(keep));
    }
    let count: usize = issues.len();
    for issue in it: issues
        invariant
            all == json::items_view(it.seq()),
            it.seq().len() == count,
            keep == (|issue: JsonView| kept(issue, json::items_view(applied@))),
            json::items_view(out@) == all.take(it.index() as int).filter(keep),
            out@.len() + dropped == it.index(),
    {
        proof {
            reveal(Seq::filter);
            assert(all.take(it.index() + 1).drop_last() =~= all.take(it.index() as int));
            assert(all.take(it.index() + 1).last() == issue@);
        }
        let ghost before = json::items_view(out@);
        if is_kept(&issue, applied) {
            out.push(issue);
            assert(json::items_view(out@) =~= before.push(issue@));
        } else {
            dropped += 1;
        }
    }
    assert(all.take(all.len() as int) =~= all);
    (out, dropped)
}

/// Pruning leaves every issue that was not generated here.
pub proof fn law_pruning_spares_other_issues(
    issues: Seq<JsonView>,
    applied: Seq<JsonView>,
    issue: JsonView,
)
    requires
        issues.contains(issue),
        !generated(issue),
    ensures
        pruned(issues, applied).contains(issue),
{
    let i = issues.index_of(issue);
    issues.lemma_filter_contains(|x: JsonView| kept(x, applied), i);
}

// ---------------------------------------------------------------------------
// Order
// ---------------------------------------------------------------------------

/// An issue of the file, to be ranked.
#[derive(Debug)]
pub struct Listed {
    pub issue: Json,
}

impl View for Listed {
    type V = JsonView;

    open spec fn view(&self) -> JsonView {
        self.issue@
    }
}

/// The rank of a priority.
pub open spec fn priority_rank(issue: JsonView) -> nat {
    let p = text::lowercase(
        match json::text_field(issue, "priority"@) {
            Some(p) => p,
            None => "low"@,
        },
    );
    if p == "high"@ {
        0
    } else if p == "medium"@ {
        1
    } else if p == "low"@ {
        2
    } else {
        9
    }
}

/// The id of an issue, empty where it has none.
pub open spec fn id_or_empty(issue: JsonView) -> Seq<char> {
    match id_of(issue) {
        Some(id) => id,
        None => ""@,
    }
}

fn rank_of(issue: &Json) -> (r: u32)
    ensures
        r == priority_rank(issue@),
{
    let p = to_lowercase(
        match get_text(issue, "priority") {
            Some(p) => p,
            None => "low",
        },
    );
    let p = p.as_str();
    if same(p, "high") {
        0
    } else if same(p, "medium") {
        1
    } else if same(p, "low") {
        2
    } else {
        9
    }
}

fn get_id<'a>(issue: &'a Json) -> (r: &'a str)
    ensures
        r@ == id_or_empty(issue@),
{
    match get_text(issue, "id") {
        Some(id) => id,
        None => "",
    }
}

impl Ranked for Listed {
    open spec fn rank_le(a: JsonView, b: JsonView) -> bool {
        priority_rank(a) < priority_rank(b) || (priority_rank(a) == priority_rank(b)
            && text::text_le(id_or_empty(a), id_or_empty(b)))
    }

    fn ranks_at_most(&self, other: &Self) -> bool {
        let a: u32 = rank_of(&self.issue);
        let b: u32 = rank_of(&other.issue);
        a < b || (a == b && text_at_most(get_id(&self.issue), get_id(&other.issue)))
    }

    proof fn rank_total(a: JsonView, b: JsonView) {
        text::lemma_text_le_total(id_or_empty(a), id_or_empty(b));
    }

    proof fn rank_transitive(a: JsonView, b: JsonView, c: JsonView) {
        if text::text_le(id_or_empty(a), id_or_empty(b)) && text::text_le(
            id_or_empty(b),
            id_or_empty(c),
        ) {
            text::lemma_text_le_transitive(id_or_empty(a), id_or_empty(b), id_or_empty(c));
        }
    }
}

/// Issues by priority, and by id where it is the same.
pub open spec fn by_priority(issues: Seq<JsonView>) -> Seq<JsonView> {
    order::stable_sorted(issues, |a: JsonView, b: JsonView| <Listed as Ranked>::rank_le(a, b))
}

/// Sorts issues by priority, and by id where it is the same.
pub fn sort_issues_by_priority(issues: Vec<Json>) -> (r: Vec<Json>)
    ensures
        json::items_view(r@) == by_priority(json::items_view(issues@)),
{
    let ghost all = json::items_view(issues@);
    let mut listed: Vec<Listed> = Vec::new();
    for issue in it: issues
        invariant
            all == json::items_view(it.seq()),
            listed@.len() == it.index(),
            forall|k: int| 0 <= k < it.index() ==> (#[trigger] listed@[k])@ == all[k],
    {
        listed.push(Listed { issue });
    }
    assert(order::views(listed@) =~= all);
    let sorted = sort_ranked(listed);
    let ghost ordered = order::views(sorted@);
    let mut out: Vec<Json> = Vec::new();
    for l in it: sorted
        invariant
            ordered == order::views(it.seq()),
            out@.len() == it.index(),
            forall|k: int| 0 <= k < it.index() ==> (#[trigger] out@[k])@ == ordered[k],
    {
        out.push(l.issue);
    }
    assert(json::items_view(out@) =~= ordered);
    out
}

// ---------------------------------------------------------------------------
// The whole
// ---------------------------------------------------------------------------

/// The issues of a file.
pub open spec fn issues_in(root: JsonView) -> Seq<JsonView> {
    match json::field(root, "issues"@) {
        Some(JsonView::Array(items)) => items,
        _ => Seq::empty(),
    }
}

/// The issue objects of tickets.
pub open spec fn issue_objects(tickets: Seq<TicketView>) -> Seq<JsonView> {
    tickets.map_values(|t: TicketView| t.issue)
}

/// The issues of a file after the selected tickets were merged into them, stale ones
/// taken out where that is asked for, in their order.
pub open spec fn updated_issues(
    root: JsonView,
    tickets: Seq<TicketView>,
    top: usize,
    prune: bool,
) -> Seq<JsonView> {
    let m = merged(issues_in(root), issue_objects(selected(tickets, top)));
    by_priority(
        if prune {
            pruned(m.issues, m.applied)
        } else {
            m.issues
        },
    )
}

/// An issues file after tickets were brought into it.
#[derive(Debug)]
pub struct UpdatedFile {
    pub root: Json,
    pub merge: MergeAppliedIssues,
    pub total: usize,
    pub pruned: usize,
}

fn take_issues(root: &Json) -> (r: Vec<Json>)
    ensures
        json::items_view(r@) == issues_in(root@),
{
    match json::get(root, "issues") {
        Some(v) => {
            let copy = copy_json(v);
            proof {
                json::lemma_json_view(copy);
                json::lemma_json_view(*v);
            }
            match copy {
                Json::Array(items) => {
                    return items;
                },
                _ => {},
            }
        },
        None => {},
    }
    let none: Vec<Json> = Vec::new();
    assert(json::items_view(none@) =~= Seq::<JsonView>::empty());
    none
}

/// Brings tickets into an issues file.
pub fn update_issues_file(root: Json, tickets: Vec<Ticket>, top: usize, prune: bool) -> (r:
    UpdatedFile)
    requires
        root@ is Object,
    ensures
        ({
            let after = updated_issues(root@, order::views(tickets@), top, prune);
            let m = merged(
                issues_in(root@),
                issue_objects(selected(order::views(tickets@), top)),
            );
            &&& r.root@ == JsonView::Object(
                json::with_member(root@->Object_0, "issues"@, JsonView::Array(after)),
            )
            &&& text::texts(r.merge.added_ids@) == m.added
            &&& text::texts(r.merge.updated_ids@) == m.updated
            &&& json::items_view(r.merge.applied_issue_objects@) == m.applied
            &&& r.total == after.len()
            &&& r.pruned == m.issues.len() - after.len()
        }),
{
    let ghost given = order::views(tickets@);
    let chosen = sort_and_truncate_issues(tickets, top);
    let ghost views = order::views(chosen@);
    let mut new_issues: Vec<Json> = Vec::new();
    for t in it: chosen
        invariant
            views == order::views(it.seq()),
            new_issues@.len() == it.index(),
            forall|k: int| 0 <= k < it.index() ==> (#[trigger] new_issues@[k])@ == views[k].issue,
    {
        new_issues.push(t.issue);
    }
    assert(json::items_view(new_issues@) =~= issue_objects(views));
    let mut issues = take_issues(&root);
    let merge = merge_generated_issues(&mut issues, &new_issues);
    let (left, pruned) = prune_stale_generated_issues(
        issues,
        &merge.applied_issue_objects,
        prune,
    );
    let ghost held = json::items_view(left@);
    assert(held.len() == left@.len());
    assert(json::items_view(issues@).len() == issues@.len());
    proof {
        let le = |a: JsonView, b: JsonView| <Listed as Ranked>::rank_le(a, b);
        assert forall|a: JsonView, b: JsonView| #[trigger] le(a, b) || le(b, a) by {
            <Listed as Ranked>::rank_total(a, b);
        }
        assert forall|a: JsonView, b: JsonView, c: JsonView| #[trigger]
            le(a, b) && #[trigger] le(b, c) implies le(a, c) by {
            <Listed as Ranked>::rank_transitive(a, b, c);
        }
        order::lemma_stable_sorted(held, le);
    }
    let sorted = sort_issues_by_priority(left);
    assert(json::items_view(sorted@).len() == sorted@.len());
    let total: usize = sorted.len();
    proof {
        json::lemma_json_view(root);
    }
    match root {
        Json::Object(members) => {
            let mut ms = members;
            set_member(&mut ms, "issues", array(sorted));
            UpdatedFile { root: object(ms), merge, total, pruned }
        },
        other => UpdatedFile { root: other, merge, total, pruned },
    }
}

/// What is reported of an update.
pub open spec fn summary(
    a: TicketArgs,
    added: Seq<Seq<char>>,
    updated: Seq<Seq<char>>,
    total: usize,
    pruned: usize,
    per_crate_candidates: JsonView,
    per_crate_generated: JsonView,
) -> JsonView {
    JsonView::Object(
        json::no_members().push(("added"@, JsonView::Uint(added.len() as u64))).push(
            ("added_ids"@, json::text_array_view(added)),
        ).push(("all_crates"@, JsonView::Bool(a.all_crates))).push(
            ("dry_run"@, JsonView::Bool(a.dry_run)),
        ).push(("issues_path"@, JsonView::Text(a.issues_path@))).push(
            ("ok"@, JsonView::Bool(true)),
        ).push(("per_crate_candidates"@, per_crate_candidates)).push(
            ("per_crate_generated"@, per_crate_generated),
        ).push(("print"@, JsonView::Bool(a.print))).push(("prune"@, JsonView::Bool(a.prune))).push(
            ("pruned"@, JsonView::Uint(pruned as u64)),
        ).push(("top"@, JsonView::Uint(a.top as u64))).push(
            ("total"@, JsonView::Uint(total as u64)),
        ).push(("updated"@, JsonView::Uint(updated.len() as u64))).push(
            ("updated_ids"@, json::text_array_view(updated)),
        ),
    )
}

/// What is reported of an update.
pub fn build_summary(
    a: &TicketArgs,
    file: &UpdatedFile,
    per_crate_candidates: Json,
    per_crate_generated: Json,
) -> (r: Json)
    ensures
        r@ == summary(
            *a,
            text::texts(file.merge.added_ids@),
            text::texts(file.merge.updated_ids@),
            file.total,
            file.pruned,
            per_crate_candidates@,
            per_crate_generated@,
        ),
{
    let ms = and(members(), "added", uint(file.merge.added_ids.len()));
    let ms = and(ms, "added_ids", string_array(&file.merge.added_ids));
    let ms = and(ms, "all_crates", boolean(a.all_crates));
    let ms = and(ms, "dry_run", boolean(a.dry_run));
    let ms = and(ms, "issues_path", string(a.issues_path.as_str()));
    let ms = and(ms, "ok", boolean(true));
    let ms = and(ms, "per_crate_candidates", per_crate_candidates);
    let ms = and(ms, "per_crate_generated", per_crate_generated);
    let ms = and(ms, "print", boolean(a.print));
    let ms = and(ms, "prune", boolean(a.prune));
    let ms = and(ms, "pruned", uint(file.pruned));
    let ms = and(ms, "top", uint(a.top));
    let ms = and(ms, "total", uint(file.total));
    let ms = and(ms, "updated", uint(file.merge.updated_ids.len()));
    let ms = and(ms, "updated_ids", string_array(&file.merge.updated_ids));
    object(ms)
}

/// The issues that were generated.
pub fn emit_generated_issues_payload(applied: Vec<Json>) -> (r: Json)
    ensures
        r@ == JsonView::Object(
            json::no_members().push(
                ("generated_issues"@, JsonView::Array(json::items_view(applied@))),
            ),
        ),
{
    object(and(members(), "generated_issues", array(applied)))
}

} // verus!
