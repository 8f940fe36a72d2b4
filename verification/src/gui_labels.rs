//! The words of the panels: labels for bases, knots, branches and counts.

use crate::basis_branch_regions::BasisGraphBranchDomain;
use crate::basis_graph_authoring::BasisGraphAuthoringRefreshSummary;
use crate::basis_graph_playback::{
    BasisBranchRejection, BasisGraphLastEdge, BasisGraphPlaybackPolicy,
};
use crate::text::decimal;
use num_format::ToFormattedString;
use vstd::prelude::*;
use vstd::string::*;

verus! {

/// The last three digits of a number.
pub open spec fn three_digits(n: nat) -> Seq<char> {
    seq![
        crate::text::digit_char(n / 100 % 10),
        crate::text::digit_char(n / 10 % 10),
        crate::text::digit_char(n % 10),
    ]
}

/// A number in decimal notation with a comma before every third digit from the right.
pub open spec fn grouped_text(n: nat) -> Seq<char>
    decreases n,
{
    if n < 1000 {
        crate::text::decimal_text(n)
    } else {
        grouped_text(n / 1000) + seq![','] + three_digits(n)
    }
}

/// `num_format::ToFormattedString::to_formatted_string` of a `usize` with `Locale::en`: decimal
/// digits, with a comma between groups of three.
#[verifier::external_body]
fn grouped(n: usize) -> (r: String)
    ensures
        r@ == grouped_text(n as nat),
{
    n.to_formatted_string(&num_format::Locale::en)
}

/// A count in groups of three digits.
pub fn count_label(count: usize) -> (r: String)
    ensures
        r@ == grouped_text(count as nat),
{
    grouped(count)
}

/// The counts of splats without and with those that are blended.
pub fn splat_count_label(splats: usize, blending: usize) -> (r: String)
    ensures
        r@ == grouped_text(splats as nat) + " ("@ + grouped_text(blending as nat) + ")"@,
{
    let mut s: String = grouped(splats);
    s.append(" (");
    s.append(grouped(blending).as_str());
    s.append(")");
    s
}

/// A number, or `n/a`.
pub open spec fn number_or_none(n: Option<usize>) -> Seq<char> {
    match n {
        Some(v) => crate::text::decimal_text(v as nat),
        None => "n/a"@,
    }
}

/// Shows a number, or `n/a`.
pub fn show_number(n: Option<usize>) -> (r: String)
    ensures
        r@ == number_or_none(n),
{
    match n {
        Some(v) => decimal(v as u64),
        None => "n/a".to_owned(),
    }
}

/// The bank in brief: how many bases there are and how many each splat uses. Without a preview of
/// the motion, the count may be missing.
pub open spec fn bank_summary(
    preview_bases: Option<usize>,
    basis_count: Option<usize>,
    active_top_k: Option<usize>,
    top_k: Option<usize>,
) -> Seq<char> {
    let active = match active_top_k {
        Some(k) => Some(k),
        None => top_k,
    };
    match preview_bases {
        Some(count) => "Basis bank: "@ + "shared LoD0, "@ + crate::text::decimal_text(count as nat)
            + " shared bases, basis used per splat "@ + number_or_none(active) + "/"@
            + number_or_none(top_k),
        None => "Basis bank: "@ + "basis="@ + number_or_none(basis_count)
            + ", basis used per splat "@ + number_or_none(active) + "/"@ + number_or_none(top_k),
    }
}

pub fn basis_bank_status_summary(
    preview_bases: Option<usize>,
    basis_count: Option<usize>,
    active_top_k: Option<usize>,
    top_k: Option<usize>,
) -> (r: String)
    ensures
        r@ == bank_summary(preview_bases, basis_count, active_top_k, top_k),
{
    let active: Option<usize> = match active_top_k {
        Some(k) => Some(k),
        None => top_k,
    };
    let mut s: String = "Basis bank: ".to_owned();
    match preview_bases {
        Some(count) => {
            s.append("shared LoD0, ");
            s.append(decimal(count as u64).as_str());
            s.append(" shared bases, basis used per splat ");
        },
        None => {
            s.append("basis=");
            s.append(show_number(basis_count).as_str());
            s.append(", basis used per splat ");
        },
    }
    s.append(show_number(active).as_str());
    s.append("/");
    s.append(show_number(top_k).as_str());
    s
}

/// The name of a basis.
pub fn artist_basis_label(basis_id: usize) -> (r: String)
    ensures
        r@ == "Shared LoD0 basis "@ + crate::text::decimal_text(basis_id as nat),
{
    let mut s: String = "Shared LoD0 basis ".to_owned();
    s.append(decimal(basis_id as u64).as_str());
    s
}

/// The name of the place that a branch leads to.
pub fn artist_branch_target_label(basis_id: usize, segment: usize) -> (r: String)
    ensures
        r@ == "shared basis "@ + crate::text::decimal_text(basis_id as nat) + " / segment "@
            + crate::text::decimal_text(segment as nat),
{
    let mut s: String = "shared basis ".to_owned();
    s.append(decimal(basis_id as u64).as_str());
    s.append(" / segment ");
    s.append(decimal(segment as u64).as_str());
    s
}

/// The place of a knot among those of the source, or among those that close the loop.
pub open spec fn knot_text(knot: usize, source_knots: usize, exported_knots: usize) -> Seq<char> {
    if knot < source_knots {
        "source knot "@ + crate::text::decimal_text(knot as nat) + " / "@
            + crate::text::decimal_text((source_knots - 1) as nat)
    } else {
        "closure knot C"@ + crate::text::decimal_text((knot - source_knots + 1) as nat) + " / C"@
            + crate::text::decimal_text(
            if exported_knots > source_knots {
                (exported_knots - source_knots) as nat
            } else {
                0
            },
        )
    }
}

/// Names a knot in the editor.
pub fn basis_knot_editor_label(
    knot: usize,
    source_knot_count: usize,
    exported_knot_count: usize,
) -> (r: String)
    requires
        source_knot_count > 0 || knot < usize::MAX,
    ensures
        r@ == knot_text(knot, source_knot_count, exported_knot_count),
{
    if knot < source_knot_count {
        let mut s: String = "source knot ".to_owned();
        s.append(decimal(knot as u64).as_str());
        s.append(" / ");
        s.append(decimal((source_knot_count - 1) as u64).as_str());
        s
    } else {
        let closure_index: usize = knot - source_knot_count + 1;
        let closure_count: usize = if exported_knot_count > source_knot_count {
            exported_knot_count - source_knot_count
        } else {
            0
        };
        let mut s: String = "closure knot C".to_owned();
        s.append(decimal(closure_index as u64).as_str());
        s.append(" / C");
        s.append(decimal(closure_count as u64).as_str());
        s
    }
}

/// The mark of a knot in the plot: its number, or its number among those that close the loop.
pub fn knot_mark(knot: usize, source_knot_count: usize) -> (r: String)
    requires
        source_knot_count > 0 || knot < usize::MAX,
    ensures
        r@ == if knot >= source_knot_count {
            "C"@ + crate::text::decimal_text((knot - source_knot_count + 1) as nat)
        } else {
            crate::text::decimal_text(knot as nat)
        },
{
    if knot >= source_knot_count {
        let mut s: String = "C".to_owned();
        s.append(decimal((knot - source_knot_count + 1) as u64).as_str());
        s
    } else {
        decimal(knot as u64)
    }
}

/// The parts of the diagnostics.
#[derive(Clone, Copy, Debug, PartialEq, Eq, Structural)]
pub enum BasisGraphDiagnosticsSection {
    Asset,
    Selection,
    Playback,
    Filtering,
    Branches,
}

pub open spec fn section_text(section: BasisGraphDiagnosticsSection) -> Seq<char> {
    match section {
        BasisGraphDiagnosticsSection::Asset => "Asset"@,
        BasisGraphDiagnosticsSection::Selection => "Selection"@,
        BasisGraphDiagnosticsSection::Playback => "Playback"@,
        BasisGraphDiagnosticsSection::Filtering => "Filtering"@,
        BasisGraphDiagnosticsSection::Branches => "Branches"@,
    }
}

pub fn basis_graph_diagnostics_section_label(section: BasisGraphDiagnosticsSection) -> (r:
    &'static str)
    ensures
        r@ == section_text(section),
{
    match section {
        BasisGraphDiagnosticsSection::Asset => "Asset",
        BasisGraphDiagnosticsSection::Selection => "Selection",
        BasisGraphDiagnosticsSection::Playback => "Playback",
        BasisGraphDiagnosticsSection::Filtering => "Filtering",
        BasisGraphDiagnosticsSection::Branches => "Branches",
    }
}

pub open spec fn policy_text(policy: BasisGraphPlaybackPolicy) -> Seq<char> {
    match policy {
        BasisGraphPlaybackPolicy::Continue => policy.label(),
        BasisGraphPlaybackPolicy::Rank0 => "Best"@,
        BasisGraphPlaybackPolicy::Stochastic => "Random"@,
    }
}

/// The way of playing, in the words of the panel.
pub fn basis_graph_policy_ui_label(policy: BasisGraphPlaybackPolicy) -> (r: &'static str)
    ensures
        r@ == policy_text(policy),
{
    match policy {
        BasisGraphPlaybackPolicy::Continue => policy.as_str(),
        BasisGraphPlaybackPolicy::Rank0 => "Best",
        BasisGraphPlaybackPolicy::Stochastic => "Random",
    }
}

pub open spec fn edge_text(edge: BasisGraphLastEdge) -> Seq<char> {
    match edge {
        BasisGraphLastEdge::Reset => "reset"@,
        BasisGraphLastEdge::Continue => "default successor"@,
        BasisGraphLastEdge::Branch { rank, to_basis_id, to_segment } => "branch rank "@
            + crate::text::decimal_text(rank as nat) + " -> global "@
            + crate::text::decimal_text(to_basis_id as nat) + " / segment "@
            + crate::text::decimal_text(to_segment as nat),
    }
}

/// How a state came to where it is.
pub fn basis_graph_last_edge_label(edge: BasisGraphLastEdge) -> (r: String)
    ensures
        r@ == edge_text(edge),
{
    match edge {
        BasisGraphLastEdge::Reset => "reset".to_owned(),
        BasisGraphLastEdge::Continue => "default successor".to_owned(),
        BasisGraphLastEdge::Branch { rank, to_basis_id, to_segment } => {
            let mut s: String = "branch rank ".to_owned();
            s.append(decimal(rank as u64).as_str());
            s.append(" -> global ");
            s.append(decimal(to_basis_id as u64).as_str());
            s.append(" / segment ");
            s.append(decimal(to_segment as u64).as_str());
            s
        },
    }
}

pub open spec fn quality_text(rejection: BasisBranchRejection) -> Seq<char> {
    if rejection.score {
        "Score"@
    } else if rejection.position {
        "Position"@
    } else if rejection.velocity {
        "Velocity"@
    } else if rejection.acceleration {
        "Acceleration"@
    } else {
        "Good"@
    }
}

/// The first limit that a branch exceeds, or that it is good.
pub fn branch_rejection_quality_label(rejection: BasisBranchRejection) -> (r: &'static str)
    ensures
        r@ == quality_text(rejection),
{
    if rejection.score {
        "Score"
    } else if rejection.position {
        "Position"
    } else if rejection.velocity {
        "Velocity"
    } else if rejection.acceleration {
        "Acceleration"
    } else {
        "Good"
    }
}

/// Whether a branch can be taken.
pub fn branch_rejection_status_label(rejection: BasisBranchRejection) -> (r: &'static str)
    ensures
        r@ == if rejection.any() {
            "Rejected"@
        } else {
            "Usable"@
        },
{
    if rejection.rejected() {
        "Rejected"
    } else {
        "Usable"
    }
}

/// The limits that a branch exceeds, by name.
pub open spec fn reasons(rejection: BasisBranchRejection) -> Seq<Seq<char>> {
    let none = Seq::<Seq<char>>::empty();
    (if rejection.score {
        none.push("score"@)
    } else {
        none
    }) + (if rejection.position {
        none.push("position"@)
    } else {
        none
    }) + (if rejection.velocity {
        none.push("velocity"@)
    } else {
        none
    }) + (if rejection.acceleration {
        none.push("acceleration"@)
    } else {
        none
    })
}

/// Texts with a comma and a space between them.
pub open spec fn listed(texts: Seq<Seq<char>>) -> Seq<char>
    decreases texts.len(),
{
    if texts.len() == 0 {
        Seq::empty()
    } else if texts.len() == 1 {
        texts[0]
    } else {
        listed(texts.drop_last()) + ", "@ + texts.last()
    }
}

pub open spec fn texts_of(names: Seq<&'static str>) -> Seq<Seq<char>> {
    Seq::new(names.len(), |i: int| names[i]@)
}

fn list_of(names: &Vec<&'static str>) -> (r: String)
    ensures
        r@ == listed(texts_of(names@)),
{
    let ghost texts = texts_of(names@);
    let mut s: String = String::new();
    for i in 0..names.len()
        invariant
            texts == texts_of(names@),
            s@ == listed(texts.take(i as int)),
    {
        if i > 0 {
            s.append(", ");
        }
        s.append(names[i]);
        proof {
            assert(texts.take(i + 1).drop_last() =~= texts.take(i as int));
            assert(texts.take(i + 1).last() == names@[i as int]@);
            assert(listed(texts.take(i + 1)) =~= s@);
        }
    }
    assert(texts.take(names@.len() as int) =~= texts);
    s
}

/// The limits that a branch exceeds, behind a separator; nothing if there are none.
pub fn branch_rejection_label(rejection: BasisBranchRejection) -> (r: String)
    ensures
        r@ == if rejection.any() {
            " | rejected by "@ + listed(reasons(rejection))
        } else {
            Seq::empty()
        },
{
    let mut names: Vec<&'static str> = Vec::new();
    if rejection.score {
        names.push("score");
    }
    if rejection.position {
        names.push("position");
    }
    if rejection.velocity {
        names.push("velocity");
    }
    if rejection.acceleration {
        names.push("acceleration");
    }
    assert(texts_of(names@) =~= reasons(rejection));
    if names.len() == 0 {
        String::new()
    } else {
        let mut s: String = " | rejected by ".to_owned();
        s.append(list_of(&names).as_str());
        s
    }
}

/// The local branches in brief.
pub open spec fn authoring_text(
    stale: bool,
    summary: Option<BasisGraphAuthoringRefreshSummary>,
) -> Seq<char> {
    "Local branches: "@ + (if stale {
        "stale"@
    } else if summary is Some {
        "fresh"@
    } else {
        "baseline"@
    }) + ", refreshed nodes "@ + crate::text::decimal_text(
        match summary {
            Some(s) => s.refreshed_node_count as nat,
            None => 0,
        },
    ) + ", changed best targets "@ + crate::text::decimal_text(
        match summary {
            Some(s) => s.changed_best_target_count as nat,
            None => 0,
        },
    )
}

pub fn authoring_label(stale: bool, summary: &Option<BasisGraphAuthoringRefreshSummary>) -> (r:
    String)
    ensures
        r@ == authoring_text(stale, *summary),
{
    let status: &'static str = if stale {
        "stale"
    } else if summary.is_some() {
        "fresh"
    } else {
        "baseline"
    };
    let (nodes, targets): (usize, usize) = match summary {
        Some(s) => (s.refreshed_node_count, s.changed_best_target_count),
        None => (0, 0),
    };
    let mut s: String = "Local branches: ".to_owned();
    s.append(status);
    s.append(", refreshed nodes ");
    s.append(decimal(nodes as u64).as_str());
    s.append(", changed best targets ");
    s.append(decimal(targets as u64).as_str());
    s
}

/// What a state plays: its own basis and the one it has branched to, and the region if there are
/// several.
pub open spec fn playback_text(
    domain: BasisGraphBranchDomain,
    region_id: usize,
    original: usize,
    active: usize,
) -> Seq<char> {
    let bases = "Shared LoD0 basis "@ + crate::text::decimal_text(original as nat) + " -> "@ + (
    "Shared LoD0 basis "@ + crate::text::decimal_text(active as nat));
    match domain {
        BasisGraphBranchDomain::FbmRegions => "Region "@ + crate::text::decimal_text(
            region_id as nat,
        ) + " / "@ + bases,
        BasisGraphBranchDomain::GlobalBasis => bases,
    }
}

pub fn playback_label(
    domain: BasisGraphBranchDomain,
    region_id: usize,
    original: usize,
    active: usize,
) -> (r: String)
    ensures
        r@ == playback_text(domain, region_id, original, active),
{
    let mut bases: String = artist_basis_label(original);
    bases.append(" -> ");
    bases.append(artist_basis_label(active).as_str());
    match domain {
        BasisGraphBranchDomain::FbmRegions => {
            let mut s: String = "Region ".to_owned();
            s.append(decimal(region_id as u64).as_str());
            s.append(" / ");
            s.append(bases.as_str());
            s
        },
        BasisGraphBranchDomain::GlobalBasis => bases,
    }
}

/// Segments since the last branch, of those that must pass before the next.
pub fn cooldown_label(segments_since_branch: u32, min_interval: u32) -> (r: String)
    ensures
        r@ == crate::text::decimal_text(segments_since_branch as nat) + " / "@
            + crate::text::decimal_text(min_interval as nat) + (if segments_since_branch
            < min_interval {
            " active"@
        } else {
            ""@
        }),
{
    let mut s: String = decimal(segments_since_branch as u64);
    s.append(" / ");
    s.append(decimal(min_interval as u64).as_str());
    s.append(if segments_since_branch < min_interval { " active" } else { "" });
    s
}

/// How many of the branches can be taken.
pub fn usable_branches_label(usable: usize, total: usize) -> (r: String)
    ensures
        r@ == "Usable branches "@ + crate::text::decimal_text(usable as nat) + " / "@
            + crate::text::decimal_text(total as nat),
{
    let mut s: String = "Usable branches ".to_owned();
    s.append(decimal(usable as u64).as_str());
    s.append(" / ");
    s.append(decimal(total as u64).as_str());
    s
}

/// How the knots of a bank come about.
pub fn knot_counts_label(source: usize, closure: usize, exported: usize) -> (r: String)
    ensures
        r@ == "Knots: "@ + crate::text::decimal_text(source as nat) + " source + "@
            + crate::text::decimal_text(closure as nat) + " closure = "@
            + crate::text::decimal_text(exported as nat) + " exported"@,
{
    let mut s: String = "Knots: ".to_owned();
    s.append(decimal(source as u64).as_str());
    s.append(" source + ");
    s.append(decimal(closure as u64).as_str());
    s.append(" closure = ");
    s.append(decimal(exported as u64).as_str());
    s.append(" exported");
    s
}

/// How many of the coefficients of a splat are used.
pub fn top_k_label(active: u32, exported: u32) -> (r: String)
    ensures
        r@ == "Using "@ + crate::text::decimal_text(active as nat) + " / "@
            + crate::text::decimal_text(exported as nat) + " basis coefficients"@,
{
    let mut s: String = "Using ".to_owned();
    s.append(decimal(active as u64).as_str());
    s.append(" / ");
    s.append(decimal(exported as u64).as_str());
    s.append(" basis coefficients");
    s
}

} // verus!
