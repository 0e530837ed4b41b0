//! What recovering a build directory removes, and what it keeps.

use crate::scrub::{
    all_outputs, all_units, groups, inner_groups, is_archive, is_stale,
    is_modified, key_of, output, outputs, scrubbed, some_touched, swept, unit, unit_touched, units,
    BuildDir, Fault, Listing, Node, Outcome, Removal, Stat, BUILD, BUILD_LOCK, DEPS, EXAMPLES,
    FINGERPRINT, INCREMENTAL, LEGACY_LOCK, TARGET_LOCK,
};
use crate::text::lemma_cut_at;
use vstd::prelude::*;
use vstd::string::*;

verus! {

/// Whether `nodes` are the entries of a directory that is listed, or of one below it.
pub open spec fn holds_folder(listing: Listing, nodes: Seq<Node>) -> bool
    decreases listing,
{
    match listing {
        Listing::Entries(own) => {
            ||| own@ == nodes
            ||| exists|i: int|
                0 <= i < own@.len() && (#[trigger] own@[i].stat matches Stat::Found {
                    listing: Some(inner),
                    ..
                } && holds_folder(inner, nodes))
        },
        _ => false,
    }
}

/// Whether `below` is `node` or lies below it.
pub open spec fn reaches(node: Node, below: Node) -> bool
    decreases node,
{
    ||| node == below
    ||| (node.stat matches Stat::Found { listing: Some(Listing::Entries(own)), .. } && exists|i: int|
        0 <= i < own@.len() && reaches(#[trigger] own@[i], below))
}

/// Whether an entry is known to have been modified at `since` or later.
pub open spec fn changed(node: Node, since: i128) -> bool {
    node.stat matches Stat::Found { modified: Some(time), .. } && time >= since
}

/// Whether an entry is a file whose name is text.
pub open spec fn is_named_file(node: Node) -> bool {
    node.name is Some && (node.stat matches Stat::Found { listing: None, .. })
}

/// Whether `node` is a named file with which some named file among `nodes` shares its group and was
/// modified at `since` or later.
pub open spec fn is_condemned_file(nodes: Seq<Node>, node: Node, since: i128) -> bool {
    is_named_file(node) && exists|k: int|
        0 <= k < nodes.len() && is_named_file(#[trigger] nodes[k]) && key_of(nodes[k].name->0@)
            == key_of(node.name->0@) && changed(nodes[k], since)
}

/// The removal of a unit: of a directory with all that is in it.
pub open spec fn unit_removal(node: Node) -> Removal {
    if node.stat is Found && node.stat->listing is Some {
        Removal::Tree(node.id)
    } else {
        Removal::File(node.id)
    }
}

/// Whether anything at or below `node` was modified no earlier than `since`.
pub open spec fn touched_within(node: Node, since: i128) -> bool {
    exists|below: Node| #[trigger] reaches(node, below) && changed(below, since)
}

/// Whether `removal` is of a file of a touched group, in a listed directory or below it.
pub open spec fn in_groups(listing: Listing, since: i128, removal: Removal) -> bool {
    exists|nodes: Seq<Node>, i: int| #[trigger]
        holds_folder(listing, nodes) && 0 <= i < nodes.len() && is_condemned_file(
            nodes,
            #[trigger] nodes[i],
            since,
        ) && removal == Removal::File(nodes[i].id)
}

/// Whether `removal` is of a unit with something touched within.
pub open spec fn in_units(listing: Listing, since: i128, removal: Removal) -> bool {
    listing matches Listing::Entries(nodes) && exists|i: int|
        0 <= i < nodes@.len() && touched_within(#[trigger] nodes@[i], since) && removal
            == unit_removal(nodes@[i])
}

/// Whether `removal` is of a touched file that is not Cargo's own.
pub open spec fn in_outputs(listing: Listing, since: i128, removal: Removal) -> bool {
    listing matches Listing::Entries(nodes) && exists|i: int|
        0 <= i < nodes@.len() && is_output(#[trigger] nodes@[i], since) && removal
            == Removal::File(nodes@[i].id)
}

/// Whether `node` is a touched file that is not Cargo's own.
pub open spec fn is_output(node: Node, since: i128) -> bool {
    &&& !is_cargos(node)
    &&& node.stat matches Stat::Found { listing: None, .. }
    &&& changed(node, since)
}

/// Whether an entry of a build directory goes by a name that Cargo keeps for itself.
pub open spec fn is_cargos(node: Node) -> bool {
    &&& node.name is Some
    &&& {
        ||| node.name->0@ == ".cargo-build-lock"@
        ||| node.name->0@ == ".cargo-artifact-lock"@
        ||| node.name->0@ == ".cargo-lock"@
        ||| node.name->0@ == ".fingerprint"@
        ||| node.name->0@ == "build"@
        ||| node.name->0@ == "deps"@
        ||| node.name->0@ == "examples"@
        ||| node.name->0@ == "incremental"@
    }
}

/// Whether `removal` is of something that a build may have been writing since `since`.
pub open spec fn condemned(dir: BuildDir, since: i128, removal: Removal) -> bool {
    &&& dir.exists
    &&& {
        ||| in_groups(dir.deps.listing, since, removal)
        ||| in_groups(dir.examples.listing, since, removal)
        ||| in_units(dir.build.listing, since, removal)
        ||| in_units(dir.fingerprint.listing, since, removal)
        ||| in_units(dir.incremental.listing, since, removal)
        ||| in_outputs(dir.top.listing, since, removal)
    }
}

proof fn lemma_and(a: Outcome, b: Outcome, removal: Removal)
    ensures
        a.and(b).removals.contains(removal) ==> a.removals.contains(removal)
            || b.removals.contains(removal),
        a.and(b).fault is None ==> a.fault is None && b.fault is None && (
        a.and(b).removals.contains(removal) <==> a.removals.contains(removal)
            || b.removals.contains(removal)),
{
    let both = a.removals + b.removals;
    if a.removals.contains(removal) {
        let i = choose|i: int| 0 <= i < a.removals.len() && a.removals[i] == removal;
        assert(both[i] == removal);
    }
    if b.removals.contains(removal) {
        let i = choose|i: int| 0 <= i < b.removals.len() && b.removals[i] == removal;
        assert(both[a.removals.len() + i] == removal);
    }
}

proof fn lemma_filtered(nodes: Seq<Node>, keep: spec_fn(Node) -> bool, k: int)
    requires
        0 <= k < nodes.filter(keep).len(),
    ensures
        exists|i: int| 0 <= i < nodes.len() && #[trigger] nodes[i] == nodes.filter(keep)[k],
    decreases nodes.len(),
{
    reveal(Seq::filter);
    let front = nodes.drop_last();
    if k < front.filter(keep).len() {
        lemma_filtered(front, keep, k);
        let i = choose|i: int| 0 <= i < front.len() && #[trigger] front[i] == front.filter(keep)[k];
        assert(nodes[i] == front[i]);
    } else {
        assert(nodes[nodes.len() - 1] == nodes.filter(keep)[k]);
    }
}

proof fn lemma_swept(nodes: Seq<Node>, since: i128, removal: Removal)
    ensures
        swept(nodes, since).contains(removal) <==> exists|i: int|
            0 <= i < nodes.len() && is_condemned_file(nodes, #[trigger] nodes[i], since) && removal
                == Removal::File(nodes[i].id),
{
    let stale = |node: Node| is_stale(nodes, node, since);
    let kept = nodes.filter(stale);
    broadcast use Seq::lemma_filter_pred, Seq::lemma_filter_contains;

    let all = swept(nodes, since);
    if all.contains(removal) {
        let k = choose|k: int| 0 <= k < all.len() && all[k] == removal;
        lemma_filtered(nodes, stale, k);
        let i = choose|i: int| 0 <= i < nodes.len() && #[trigger] nodes[i] == kept[k];
        assert(stale(kept[k]));
        assert(is_condemned_file(nodes, nodes[i], since));
    }
    if exists|i: int|
        0 <= i < nodes.len() && is_condemned_file(nodes, #[trigger] nodes[i], since) && removal
            == Removal::File(nodes[i].id) {
        let i = choose|i: int|
            0 <= i < nodes.len() && is_condemned_file(nodes, #[trigger] nodes[i], since) && removal
                == Removal::File(nodes[i].id);
        assert(stale(nodes[i]));
        assert(kept.contains(nodes[i]));
        let k = choose|k: int| 0 <= k < kept.len() && kept[k] == nodes[i];
        assert(all[k] == removal);
    }
}

/// Whether `removal` comes out of a directory among `nodes`.
spec fn in_inner(nodes: Seq<Node>, since: i128, removal: Removal) -> bool {
    exists|i: int|
        0 <= i < nodes.len() && (#[trigger] nodes[i].stat matches Stat::Found {
            listing: Some(inner),
            ..
        } && in_groups(inner, since, removal))
}

proof fn lemma_groups(id: u64, listing: Listing, since: i128, removal: Removal)
    ensures
        groups(id, listing, since).removals.contains(removal) ==> in_groups(
            listing,
            since,
            removal,
        ),
        groups(id, listing, since).fault is None && in_groups(listing, since, removal) ==> groups(
            id,
            listing,
            since,
        ).removals.contains(removal),
    decreases listing, 0int,
{
    if let Listing::Entries(own) = listing {
        let nodes = own@;
        let inner = inner_groups(nodes, since);
        let sweep = Outcome { removals: swept(nodes, since), fault: None };
        lemma_inner(nodes, since, removal);
        lemma_swept(nodes, since, removal);
        lemma_and(inner, sweep, removal);
        if sweep.removals.contains(removal) {
            let i = choose|i: int|
                0 <= i < nodes.len() && is_condemned_file(nodes, #[trigger] nodes[i], since) && removal
                    == Removal::File(nodes[i].id);
            assert(holds_folder(listing, nodes) && is_condemned_file(nodes, nodes[i], since));
        }
        if in_inner(nodes, since, removal) {
            let i = choose|i: int|
                0 <= i < nodes.len() && (#[trigger] nodes[i].stat matches Stat::Found {
                    listing: Some(inner),
                    ..
                } && in_groups(inner, since, removal));
            let below = nodes[i].stat->listing->0;
            let (deep, k) = choose|deep: Seq<Node>, k: int| #[trigger]
                holds_folder(below, deep) && 0 <= k < deep.len() && is_condemned_file(
                    deep,
                    #[trigger] deep[k],
                    since,
                ) && removal == Removal::File(deep[k].id);
            assert(own@[i].stat matches Stat::Found { listing: Some(l), .. } && holds_folder(
                l,
                deep,
            ));
            assert(holds_folder(listing, deep) && is_condemned_file(deep, deep[k], since));
        }
        if in_groups(listing, since, removal) {
            let (deep, k) = choose|deep: Seq<Node>, k: int| #[trigger]
                holds_folder(listing, deep) && 0 <= k < deep.len() && is_condemned_file(
                    deep,
                    #[trigger] deep[k],
                    since,
                ) && removal == Removal::File(deep[k].id);
            if deep != nodes {
                let i = choose|i: int|
                    0 <= i < own@.len() && (#[trigger] own@[i].stat matches Stat::Found {
                        listing: Some(inner),
                        ..
                    } && holds_folder(inner, deep));
                let below = nodes[i].stat->listing->0;
                assert(holds_folder(below, deep) && is_condemned_file(deep, deep[k], since));
                assert(nodes[i].stat matches Stat::Found { listing: Some(l), .. } && in_groups(
                    l,
                    since,
                    removal,
                ));
            } else {
                assert(is_condemned_file(nodes, nodes[k], since));
            }
        }
    }
}

proof fn lemma_inner(nodes: Seq<Node>, since: i128, removal: Removal)
    ensures
        inner_groups(nodes, since).removals.contains(removal) ==> in_inner(nodes, since, removal),
        inner_groups(nodes, since).fault is None && in_inner(nodes, since, removal)
            ==> inner_groups(nodes, since).removals.contains(removal),
    decreases nodes, nodes.len(),
{
    if nodes.len() > 0 {
        let front = nodes.subrange(0, nodes.len() - 1);
        let last = nodes[nodes.len() - 1];
        let before = inner_groups(front, since);
        let here = match last.stat {
            Stat::Missing => Outcome::none(),
            Stat::Failed => Outcome::stop(Fault::Stat(last.id)),
            Stat::Found { listing: Some(listing), .. } => groups(last.id, listing, since),
            Stat::Found { listing: None, .. } => Outcome::none(),
        };
        lemma_inner(front, since, removal);
        lemma_and(before, here, removal);
        match last.stat {
            Stat::Found { listing: Some(listing), .. } => {
                lemma_groups(last.id, listing, since, removal);
            },
            _ => {},
        }
        if in_inner(front, since, removal) {
            let i = choose|i: int|
                0 <= i < front.len() && (#[trigger] front[i].stat matches Stat::Found {
                    listing: Some(inner),
                    ..
                } && in_groups(inner, since, removal));
            assert(nodes[i].stat == front[i].stat);
        }
        if in_inner(nodes, since, removal) {
            let i = choose|i: int|
                0 <= i < nodes.len() && (#[trigger] nodes[i].stat matches Stat::Found {
                    listing: Some(inner),
                    ..
                } && in_groups(inner, since, removal));
            if i < front.len() {
                assert(nodes[i].stat == front[i].stat);
            }
        }
    }
}

/// Looking through a unit finds what was touched: where it ends with an answer, that answer says
/// whether anything at or below the unit was modified no earlier than `since`.
pub proof fn law_unit_touched(node: Node, since: i128)
    ensures
        match unit_touched(node, since) {
            Ok(found) => found == touched_within(node, since),
            Err(_) => true,
        },
    decreases node, 0int,
{
    if changed(node, since) {
        assert(reaches(node, node));
    }
    match node.stat {
        Stat::Found { listing: Some(Listing::Entries(own)), .. } => {
            lemma_some_touched(own@, since);
            if exists|i: int| 0 <= i < own@.len() && touched_within(#[trigger] own@[i], since) {
                let i = choose|i: int|
                    0 <= i < own@.len() && touched_within(#[trigger] own@[i], since);
                let below = choose|below: Node| #[trigger]
                    reaches(own@[i], below) && changed(below, since);
                assert(reaches(own@[i], below));
                assert(reaches(node, below) && changed(below, since));
            }
            if touched_within(node, since) && !changed(node, since) {
                let below = choose|below: Node| #[trigger]
                    reaches(node, below) && changed(below, since);
                let i = choose|i: int| 0 <= i < own@.len() && reaches(#[trigger] own@[i], below);
                assert(touched_within(own@[i], since));
            }
        },
        _ => {
            if touched_within(node, since) {
                let below = choose|below: Node| #[trigger]
                    reaches(node, below) && changed(below, since);
                assert(below == node);
            }
        },
    }
}

/// What was touched since a time was touched since every earlier one: a marker published earlier
/// condemns no less of a unit.
pub proof fn law_earlier_markers_reach_further(node: Node, earlier: i128, later: i128)
    requires
        earlier <= later,
        touched_within(node, later),
    ensures
        touched_within(node, earlier),
{
    let below = choose|below: Node| #[trigger] reaches(node, below) && changed(below, later);
    assert(reaches(node, below) && changed(below, earlier));
}

proof fn lemma_some_touched(nodes: Seq<Node>, since: i128)
    ensures
        match some_touched(nodes, since) {
            Ok(found) => found == exists|i: int|
                0 <= i < nodes.len() && touched_within(#[trigger] nodes[i], since),
            Err(_) => true,
        },
    decreases nodes, nodes.len(),
{
    if nodes.len() > 0 {
        let front = nodes.subrange(0, nodes.len() - 1);
        let last = nodes[nodes.len() - 1];
        lemma_some_touched(front, since);
        law_unit_touched(last, since);
        if exists|i: int| 0 <= i < front.len() && touched_within(#[trigger] front[i], since) {
            let i = choose|i: int|
                0 <= i < front.len() && touched_within(#[trigger] front[i], since);
            assert(touched_within(nodes[i], since));
        }
        if exists|i: int| 0 <= i < nodes.len() && touched_within(#[trigger] nodes[i], since) {
            let i = choose|i: int|
                0 <= i < nodes.len() && touched_within(#[trigger] nodes[i], since);
            if i < front.len() {
                assert(touched_within(front[i], since));
            }
        }
    }
}

proof fn lemma_units(nodes: Seq<Node>, since: i128, removal: Removal)
    ensures
        all_units(nodes, since).removals.contains(removal) ==> exists|i: int|
            0 <= i < nodes.len() && touched_within(#[trigger] nodes[i], since) && removal
                == unit_removal(nodes[i]),
        all_units(nodes, since).fault is None && (exists|i: int|
            0 <= i < nodes.len() && touched_within(#[trigger] nodes[i], since) && removal
                == unit_removal(nodes[i])) ==> all_units(nodes, since).removals.contains(removal),
    decreases nodes.len(),
{
    if nodes.len() > 0 {
        let front = nodes.drop_last();
        let last = nodes.last();
        let before = all_units(front, since);
        lemma_units(front, since, removal);
        lemma_and(before, unit(last, since), removal);
        law_unit_touched(last, since);
        if unit_touched(last, since) == Ok::<bool, Fault>(true) {
            assert(unit(last, since).removals[0] == unit_removal(last));
        }
        if exists|i: int|
            0 <= i < front.len() && touched_within(#[trigger] front[i], since) && removal
                == unit_removal(front[i]) {
            let i = choose|i: int|
                0 <= i < front.len() && touched_within(#[trigger] front[i], since) && removal
                    == unit_removal(front[i]);
            assert(touched_within(nodes[i], since));
        }
        if exists|i: int|
            0 <= i < nodes.len() && touched_within(#[trigger] nodes[i], since) && removal
                == unit_removal(nodes[i]) {
            let i = choose|i: int|
                0 <= i < nodes.len() && touched_within(#[trigger] nodes[i], since) && removal
                    == unit_removal(nodes[i]);
            if i < front.len() {
                assert(touched_within(front[i], since));
            }
        }
    }
}

proof fn lemma_outputs(nodes: Seq<Node>, since: i128, removal: Removal)
    ensures
        all_outputs(nodes, since).removals.contains(removal) ==> exists|i: int|
            0 <= i < nodes.len() && is_output(#[trigger] nodes[i], since) && removal
                == Removal::File(nodes[i].id),
        all_outputs(nodes, since).fault is None && (exists|i: int|
            0 <= i < nodes.len() && is_output(#[trigger] nodes[i], since) && removal
                == Removal::File(nodes[i].id)) ==> all_outputs(nodes, since).removals.contains(
            removal,
        ),
    decreases nodes.len(),
{
    if nodes.len() > 0 {
        let front = nodes.drop_last();
        let last = nodes.last();
        let before = all_outputs(front, since);
        lemma_outputs(front, since, removal);
        lemma_and(before, output(last, since), removal);
        if is_output(last, since) {
            assert(output(last, since).removals[0] == Removal::File(last.id));
        }
        if exists|i: int|
            0 <= i < front.len() && is_output(#[trigger] front[i], since) && removal
                == Removal::File(front[i].id) {
            let i = choose|i: int|
                0 <= i < front.len() && is_output(#[trigger] front[i], since) && removal
                    == Removal::File(front[i].id);
            assert(is_output(nodes[i], since));
        }
        if exists|i: int|
            0 <= i < nodes.len() && is_output(#[trigger] nodes[i], since) && removal
                == Removal::File(nodes[i].id) {
            let i = choose|i: int|
                0 <= i < nodes.len() && is_output(#[trigger] nodes[i], since) && removal
                    == Removal::File(nodes[i].id);
            if i < front.len() {
                assert(is_output(front[i], since));
            }
        }
    }
}

/// Recovery removes what is condemned and nothing else. Where it stops short, it has still removed
/// nothing else.
pub proof fn law_removes_exactly_the_condemned(dir: BuildDir, since: i128, removal: Removal)
    ensures
        scrubbed(dir, since).removals.contains(removal) ==> condemned(dir, since, removal),
        scrubbed(dir, since).fault is None && condemned(dir, since, removal) ==> scrubbed(
            dir,
            since,
        ).removals.contains(removal),
{
    if dir.exists {
        let a = groups(dir.deps.id, dir.deps.listing, since);
        let b = groups(dir.examples.id, dir.examples.listing, since);
        let c = units(dir.build.id, dir.build.listing, since);
        let d = units(dir.fingerprint.id, dir.fingerprint.listing, since);
        let e = units(dir.incremental.id, dir.incremental.listing, since);
        let f = outputs(dir.top.id, dir.top.listing, since);
        lemma_and(a, b, removal);
        lemma_and(a.and(b), c, removal);
        lemma_and(a.and(b).and(c), d, removal);
        lemma_and(a.and(b).and(c).and(d), e, removal);
        lemma_and(a.and(b).and(c).and(d).and(e), f, removal);
        lemma_groups(dir.deps.id, dir.deps.listing, since, removal);
        lemma_groups(dir.examples.id, dir.examples.listing, since, removal);
        if let Listing::Entries(nodes) = dir.build.listing {
            lemma_units(nodes@, since, removal);
        }
        if let Listing::Entries(nodes) = dir.fingerprint.listing {
            lemma_units(nodes@, since, removal);
        }
        if let Listing::Entries(nodes) = dir.incremental.listing {
            lemma_units(nodes@, since, removal);
        }
        if let Listing::Entries(nodes) = dir.top.listing {
            lemma_outputs(nodes@, since, removal);
        }
    }
}

/// Recovery invalidates what was touched: every touched file among grouped files, every unit with
/// something touched within, and every touched output.
pub proof fn law_touched_is_invalidated(dir: BuildDir, since: i128, nodes: Vec<Node>, i: int)
    requires
        dir.exists,
        scrubbed(dir, since).fault is None,
        0 <= i < nodes@.len(),
    ensures
        (holds_folder(dir.deps.listing, nodes@) || holds_folder(dir.examples.listing, nodes@))
            && is_named_file(nodes@[i]) && changed(nodes@[i], since) ==> scrubbed(
            dir,
            since,
        ).removals.contains(Removal::File(nodes@[i].id)),
        (dir.build.listing == Listing::Entries(nodes) || dir.fingerprint.listing
            == Listing::Entries(nodes) || dir.incremental.listing == Listing::Entries(nodes))
            && touched_within(nodes@[i], since) ==> scrubbed(dir, since).removals.contains(
            unit_removal(nodes@[i]),
        ),
        dir.top.listing == Listing::Entries(nodes) && is_output(nodes@[i], since) ==> scrubbed(
            dir,
            since,
        ).removals.contains(Removal::File(nodes@[i].id)),
{
    let node = nodes@[i];
    law_removes_exactly_the_condemned(dir, since, unit_removal(node));
    law_removes_exactly_the_condemned(dir, since, Removal::File(node.id));
    if is_named_file(node) && changed(node, since) && (holds_folder(dir.deps.listing, nodes@)
        || holds_folder(dir.examples.listing, nodes@)) {
        law_groups_go_whole(dir, since, nodes@, i, i);
    }
}

/// A group goes whole: once one of its files was touched, every file of the group in that
/// directory is removed.
pub proof fn law_groups_go_whole(
    dir: BuildDir,
    since: i128,
    nodes: Seq<Node>,
    touched: int,
    other: int,
)
    requires
        dir.exists,
        scrubbed(dir, since).fault is None,
        holds_folder(dir.deps.listing, nodes) || holds_folder(dir.examples.listing, nodes),
        0 <= touched < nodes.len(),
        0 <= other < nodes.len(),
        is_named_file(nodes[touched]) && changed(nodes[touched], since),
        is_named_file(nodes[other]),
        key_of(nodes[touched].name->0@) == key_of(nodes[other].name->0@),
    ensures
        scrubbed(dir, since).removals.contains(Removal::File(nodes[other].id)),
{
    let removal = Removal::File(nodes[other].id);
    assert(is_condemned_file(nodes, nodes[other], since));
    if holds_folder(dir.deps.listing, nodes) {
        assert(in_groups(dir.deps.listing, since, removal));
    } else {
        assert(in_groups(dir.examples.listing, since, removal));
    }
    law_removes_exactly_the_condemned(dir, since, removal);
}

/// A build directory in which nothing was touched is left as it is.
pub proof fn law_untouched_is_kept(dir: BuildDir, since: i128)
    requires
        forall|nodes: Seq<Node>, i: int|
            (holds_folder(dir.deps.listing, nodes) || holds_folder(dir.examples.listing, nodes))
                && 0 <= i < nodes.len() ==> !changed(#[trigger] nodes[i], since),
        dir.build.listing matches Listing::Entries(nodes) ==> forall|i: int|
            0 <= i < nodes@.len() ==> !touched_within(#[trigger] nodes@[i], since),
        dir.fingerprint.listing matches Listing::Entries(nodes) ==> forall|i: int|
            0 <= i < nodes@.len() ==> !touched_within(#[trigger] nodes@[i], since),
        dir.incremental.listing matches Listing::Entries(nodes) ==> forall|i: int|
            0 <= i < nodes@.len() ==> !touched_within(#[trigger] nodes@[i], since),
        dir.top.listing matches Listing::Entries(nodes) ==> forall|i: int|
            0 <= i < nodes@.len() ==> !changed(#[trigger] nodes@[i], since),
    ensures
        scrubbed(dir, since).removals == Seq::<Removal>::empty(),
{
    let all = scrubbed(dir, since).removals;
    if all.len() > 0 {
        let removal = all[0];
        assert(all.contains(removal));
        law_removes_exactly_the_condemned(dir, since, removal);
        assert(condemned(dir, since, removal));
    }
    assert(all =~= Seq::<Removal>::empty());
}

/// What one compilation writes is one group: its archives, with `lib` before the name, the dependency
/// and object files with the bare name, and the program without a suffix.
pub proof fn law_archives_join_their_group(base: Seq<char>, kind: Seq<char>)
    requires
        !base.contains('.'),
        is_archive(kind),
    ensures
        key_of("lib"@ + base + "."@ + kind) == base,
        key_of(base + "."@ + "d"@) == base,
        key_of(base + "."@ + "o"@) == base,
        key_of(base) == base,
{
    reveal_strlit("lib");
    reveal_strlit(".");
    reveal_strlit("d");
    reveal_strlit("o");
    reveal_strlit("a");
    reveal_strlit("dylib");
    reveal_strlit("rlib");
    reveal_strlit("rmeta");
    reveal_strlit("so");
    let archive = "lib"@ + base + "."@ + kind;
    let dot = 3 + base.len() as int;
    assert forall|i: int| 0 <= i < base.len() implies base[i] != '.' by {
        assert(base.contains(base[i]));
    }
    assert forall|i: int| 0 <= i < dot implies archive[i] != '.' by {
        if i >= 3 {
            assert(archive[i] == base[i - 3]);
        }
    }
    lemma_cut_at(archive, '.', dot);
    assert(archive.skip(dot + 1) =~= kind);
    lemma_cut_at(kind, '.', kind.len() as int);
    assert(kind.take(kind.len() as int) =~= kind);
    assert(archive.take(dot) =~= "lib"@ + base);
    assert(("lib"@ + base).subrange(0, 3) =~= "lib"@);
    assert(("lib"@ + base).skip(3) =~= base);
    let plain = base + "."@ + "d"@;
    lemma_cut_at(plain, '.', base.len() as int);
    assert(plain.take(base.len() as int) =~= base);
    assert(plain.skip(base.len() as int + 1) =~= "d"@);
    lemma_cut_at("d"@, '.', 1);
    assert("d"@.take(1) =~= "d"@);
    let object = base + "."@ + "o"@;
    lemma_cut_at(object, '.', base.len() as int);
    assert(object.take(base.len() as int) =~= base);
    assert(object.skip(base.len() as int + 1) =~= "o"@);
    lemma_cut_at("o"@, '.', 1);
    assert("o"@.take(1) =~= "o"@);
    lemma_cut_at(base, '.', base.len() as int);
    assert(base.take(base.len() as int) =~= base);
}

/// The names of Cargo's locks and of the directories that Cargo keeps in a build directory.
pub proof fn law_names_in_a_build_directory()
    ensures
        BUILD_LOCK@ == ".cargo-build-lock"@,
        TARGET_LOCK@ == ".cargo-artifact-lock"@,
        LEGACY_LOCK@ == ".cargo-lock"@,
        DEPS@ == "deps"@,
        EXAMPLES@ == "examples"@,
        BUILD@ == "build"@,
        FINGERPRINT@ == ".fingerprint"@,
        INCREMENTAL@ == "incremental"@,
{
}

/// A known time counts as touched exactly where it is no earlier than the marker's, whatever the two
/// times are; an unknown time never does.
pub proof fn law_touched_is_no_earlier(time: i128, since: i128)
    ensures
        is_modified(Some(time), since) <==> time >= since,
        !is_modified(None, since),
{
}

/// A named file that was modified at the marker's publication or later is removed from the compiled
/// crates and from the examples, whatever the two times are.
pub proof fn law_files_go_by_their_times(
    dir: BuildDir,
    since: i128,
    nodes: Vec<Node>,
    i: int,
    time: i128,
    name: String,
)
    requires
        dir.exists,
        scrubbed(dir, since).fault is None,
        dir.deps.listing == Listing::Entries(nodes) || dir.examples.listing == Listing::Entries(
            nodes,
        ),
        0 <= i < nodes@.len(),
        nodes@[i].name == Some(name),
        nodes@[i].stat == (Stat::Found { modified: Some(time), listing: None }),
        time >= since,
    ensures
        scrubbed(dir, since).removals.contains(Removal::File(nodes@[i].id)),
{
    law_touched_is_invalidated(dir, since, nodes, i);
}

/// A file at the top of the build directory, which is not Cargo's own, is removed exactly by its time.
pub proof fn law_outputs_go_by_their_times(node: Node, since: i128, time: i128)
    requires
        !is_cargos(node),
        node.stat == (Stat::Found { modified: Some(time), listing: None }),
    ensures
        time >= since ==> all_outputs(seq![node], since).removals == seq![Removal::File(node.id)],
        time < since ==> all_outputs(seq![node], since).removals.len() == 0,
        all_outputs(seq![node], since).fault is None,
{
    law_output_by_output(node, since);
}

/// The files of a compilation are told by what stands before the first dot of their names. Where the
/// suffix right behind it is an archive's, a `lib` in front does not count; with any other suffix,
/// and without one, the name counts as it is. What stands behind a second dot never counts.
pub proof fn law_groups_by_name(base: Seq<char>, kind: Seq<char>, rest: Seq<char>)
    requires
        !base.contains('.'),
        !kind.contains('.'),
        rest.len() == 0 || rest[0] == '.',
    ensures
        key_of(base) == base,
        ({
            let archive = kind == "a"@ || kind == "dylib"@ || kind == "rlib"@ || kind == "rmeta"@
                || kind == "so"@;
            &&& !archive ==> key_of(base + "."@ + kind + rest) == base
            &&& archive ==> key_of("lib"@ + base + "."@ + kind + rest) == base
            &&& archive && (base.len() < 3 || base.take(3) != "lib"@) ==> key_of(
                base + "."@ + kind + rest,
            ) == base
        }),
{
    reveal_strlit("lib");
    reveal_strlit(".");
    assert forall|i: int| 0 <= i < base.len() implies base[i] != '.' by {
        assert(base.contains(base[i]));
    }
    assert forall|i: int| 0 <= i < kind.len() implies kind[i] != '.' by {
        assert(kind.contains(kind[i]));
    }
    lemma_cut_at(base, '.', base.len() as int);
    assert(base.take(base.len() as int) =~= base);
    let suffix = kind + rest;
    lemma_cut_at(suffix, '.', kind.len() as int);
    assert(suffix.take(kind.len() as int) =~= kind);
    let plain = base + "."@ + kind + rest;
    lemma_cut_at(plain, '.', base.len() as int);
    assert(plain.take(base.len() as int) =~= base);
    assert(plain.skip(base.len() as int + 1) =~= suffix);
    let front = "lib"@ + base;
    let archive = "lib"@ + base + "."@ + kind + rest;
    assert forall|i: int| 0 <= i < front.len() implies archive[i] != '.' by {
        if i >= 3 {
            assert(archive[i] == base[i - 3]);
        }
    }
    lemma_cut_at(archive, '.', front.len() as int);
    assert(archive.take(front.len() as int) =~= front);
    assert(archive.skip(front.len() as int + 1) =~= suffix);
    assert(front.subrange(0, 3) =~= "lib"@);
    assert(front.skip(3) =~= base);
    if base.len() >= 3 {
        assert(base.subrange(0, 3) =~= base.take(3));
    }
}

/// A directory that is not there asks for nothing. One that cannot be listed stops the work. In any
/// other the directories in it come first; then go its own files of touched groups, in the order of
/// the listing.
pub proof fn law_groups_of_a_directory(id: u64, listing: Listing, since: i128)
    ensures
        match listing {
            Listing::Missing => groups(id, listing, since).removals.len() == 0 && groups(
                id,
                listing,
                since,
            ).fault is None,
            Listing::Failed => groups(id, listing, since).removals.len() == 0 && groups(
                id,
                listing,
                since,
            ).fault == Some(Fault::List(id)),
            Listing::Entries(own) => {
                let inner = inner_groups(own@, since);
                &&& inner.fault is Some ==> groups(id, listing, since) == inner
                &&& inner.fault is None ==> groups(id, listing, since).fault is None
                &&& inner.fault is None ==> groups(id, listing, since).removals == inner.removals
                    + own@.filter(
                    |node: Node| is_condemned_file(own@, node, since),
                ).map_values(|node: Node| Removal::File(node.id))
            },
        },
{
    if let Listing::Entries(own) = listing {
        let mine = |node: Node| is_condemned_file(own@, node, since);
        let theirs = |node: Node| is_stale(own@, node, since);
        assert forall|node: Node| #[trigger] mine(node) == theirs(node) by {
            if is_condemned_file(own@, node, since) {
                let k = choose|k: int|
                    0 <= k < own@.len() && is_named_file(#[trigger] own@[k]) && key_of(
                        own@[k].name->0@,
                    ) == key_of(node.name->0@) && changed(own@[k], since);
                assert(own@[k].is_member());
            }
            if is_stale(own@, node, since) {
                let k = choose|k: int|
                    0 <= k < own@.len() && (#[trigger] own@[k]).is_member() && key_of(
                        own@[k].name->0@,
                    ) == key_of(node.name->0@) && own@[k].is_touched(since);
                assert(is_named_file(own@[k]));
            }
        }
        assert(mine =~= theirs);
    }
}

/// What an entry among grouped files asks for by itself: a directory what it holds, one that cannot
/// be looked up an end, any other nothing.
pub proof fn law_group_entry_by_entry(node: Node, since: i128)
    ensures
        match node.stat {
            Stat::Failed => inner_groups(seq![node], since).removals.len() == 0 && inner_groups(
                seq![node],
                since,
            ).fault == Some(Fault::Stat(node.id)),
            Stat::Found { listing: Some(inner), .. } => inner_groups(seq![node], since).removals
                == groups(node.id, inner, since).removals && inner_groups(seq![node], since).fault
                == groups(node.id, inner, since).fault,
            _ => inner_groups(seq![node], since).removals.len() == 0 && inner_groups(
                seq![node],
                since,
            ).fault is None,
        },
        inner_groups(Seq::empty(), since).removals.len() == 0,
        inner_groups(Seq::empty(), since).fault is None,
{
    let one = seq![node];
    let none = one.subrange(0, 0);
    assert(none =~= Seq::<Node>::empty());
    assert(inner_groups(none, since) == Outcome::none());
    if let Stat::Found { listing: Some(inner), .. } = node.stat {
        assert(inner_groups(one, since).removals =~= groups(node.id, inner, since).removals);
    }
}

/// What a unit asks for by itself: its removal where something within was touched, an end where the
/// look at it ended in one, otherwise nothing.
pub proof fn law_unit_by_unit(node: Node, since: i128)
    ensures
        match unit_touched(node, since) {
            Ok(true) => all_units(seq![node], since).removals == seq![unit_removal(node)]
                && all_units(seq![node], since).fault is None,
            Ok(false) => all_units(seq![node], since).removals.len() == 0 && all_units(
                seq![node],
                since,
            ).fault is None,
            Err(fault) => all_units(seq![node], since).removals.len() == 0 && all_units(
                seq![node],
                since,
            ).fault == Some(fault),
        },
        all_units(Seq::empty(), since).removals.len() == 0,
        all_units(Seq::empty(), since).fault is None,
{
    let one = seq![node];
    assert(one.drop_last() =~= Seq::<Node>::empty());
    assert(all_units(one.drop_last(), since) == Outcome::none());
    if unit_touched(node, since) == Ok::<bool, Fault>(true) {
        assert(all_units(one, since).removals =~= seq![unit_removal(node)]);
    }
}

/// What an entry of the build directory asks for by itself: nothing where it is Cargo's own, whether
/// or not it can be looked up; its removal where it is a touched file; an end where it cannot be
/// looked up.
pub proof fn law_output_by_output(node: Node, since: i128)
    ensures
        is_output(node, since) ==> all_outputs(seq![node], since).removals == seq![
            Removal::File(node.id),
        ],
        !is_output(node, since) ==> all_outputs(seq![node], since).removals.len() == 0,
        !is_cargos(node) && node.stat is Failed ==> all_outputs(seq![node], since).fault == Some(
            Fault::Stat(node.id),
        ),
        is_cargos(node) || !(node.stat is Failed) ==> all_outputs(seq![node], since).fault is None,
        all_outputs(Seq::empty(), since).removals.len() == 0,
        all_outputs(Seq::empty(), since).fault is None,
{
    let one = seq![node];
    assert(one.drop_last() =~= Seq::<Node>::empty());
    assert(all_outputs(one.drop_last(), since) == Outcome::none());
    if is_output(node, since) {
        assert(all_outputs(one, since).removals =~= seq![Removal::File(node.id)]);
    }
}

/// Whether `whole` is `first` and then `second`, or `first` alone where that stops short.
pub open spec fn in_turn(first: Outcome, second: Outcome, whole: Outcome) -> bool {
    &&& first.fault is Some ==> whole.removals == first.removals && whole.fault == first.fault
    &&& first.fault is None ==> whole.removals == first.removals + second.removals && whole.fault
        == second.fault
}

/// Entries are gone through in the order of the listing, and the first fault ends it: what stands
/// behind it is neither looked at nor removed.
pub proof fn law_entries_in_turn(first: Seq<Node>, second: Seq<Node>, since: i128)
    ensures
        in_turn(
            inner_groups(first, since),
            inner_groups(second, since),
            inner_groups(first + second, since),
        ),
        in_turn(all_units(first, since), all_units(second, since), all_units(first + second, since)),
        in_turn(
            all_outputs(first, since),
            all_outputs(second, since),
            all_outputs(first + second, since),
        ),
        some_touched(first + second, since) == (if some_touched(first, since) == Ok::<bool, Fault>(
            false,
        ) {
            some_touched(second, since)
        } else {
            some_touched(first, since)
        }),
    decreases second.len(),
{
    let both = first + second;
    if second.len() == 0 {
        assert(both =~= first);
        assert(second =~= Seq::<Node>::empty());
        let a = inner_groups(first, since).removals;
        let b = all_units(first, since).removals;
        let c = all_outputs(first, since).removals;
        assert(a + Seq::<Removal>::empty() =~= a);
        assert(b + Seq::<Removal>::empty() =~= b);
        assert(c + Seq::<Removal>::empty() =~= c);
    } else {
        let front = second.drop_last();
        law_entries_in_turn(first, front, since);
        assert(both.drop_last() =~= first + front);
        assert(both.subrange(0, both.len() - 1) =~= first + front);
        assert(second.subrange(0, second.len() - 1) =~= front);
        assert(both.last() == second.last());
        assert(both[both.len() - 1] == second[second.len() - 1]);
        assert(inner_groups(first, since).fault is None ==> inner_groups(both, since).removals
            =~= inner_groups(first, since).removals + inner_groups(second, since).removals);
        assert(all_units(first, since).fault is None ==> all_units(both, since).removals
            =~= all_units(first, since).removals + all_units(second, since).removals);
        assert(all_outputs(first, since).fault is None ==> all_outputs(both, since).removals
            =~= all_outputs(first, since).removals + all_outputs(second, since).removals);
    }
}

/// The look at a unit: an entry that is gone was not touched, one that cannot be looked up is an end,
/// one with a time at `since` or later was touched and is not looked into, and any other directory
/// was touched as the first of its entries says that settles it.
pub proof fn law_look_at_a_unit(node: Node, since: i128)
    ensures
        node.stat is Missing ==> unit_touched(node, since) == Ok::<bool, Fault>(false),
        node.stat is Failed ==> unit_touched(node, since) == Err::<bool, Fault>(
            Fault::Stat(node.id),
        ),
        changed(node, since) ==> unit_touched(node, since) == Ok::<bool, Fault>(true),
        node.stat is Found && !changed(node, since) ==> match node.stat->listing {
            None => unit_touched(node, since) == Ok::<bool, Fault>(false),
            Some(Listing::Missing) => unit_touched(node, since) == Ok::<bool, Fault>(false),
            Some(Listing::Failed) => unit_touched(node, since) == Err::<bool, Fault>(
                Fault::List(node.id),
            ),
            Some(Listing::Entries(nodes)) => unit_touched(node, since) == some_touched(
                nodes@,
                since,
            ),
        },
        some_touched(seq![node], since) == unit_touched(node, since),
        some_touched(Seq::empty(), since) == Ok::<bool, Fault>(false),
{
    let one = seq![node];
    assert(one.subrange(0, 0) =~= Seq::<Node>::empty());
    assert(some_touched(one.subrange(0, 0), since) == Ok::<bool, Fault>(false));
}

/// A directory of units, and the build directory itself, ask for nothing where they are not there, for
/// an end where they cannot be listed, and otherwise for what their entries do.
pub proof fn law_units_and_outputs_of_a_directory(id: u64, listing: Listing, since: i128)
    ensures
        match listing {
            Listing::Missing => {
                &&& units(id, listing, since).removals.len() == 0
                &&& units(id, listing, since).fault is None
                &&& outputs(id, listing, since).removals.len() == 0
                &&& outputs(id, listing, since).fault is None
            },
            Listing::Failed => {
                &&& units(id, listing, since).removals.len() == 0
                &&& units(id, listing, since).fault == Some(Fault::List(id))
                &&& outputs(id, listing, since).removals.len() == 0
                &&& outputs(id, listing, since).fault == Some(Fault::List(id))
            },
            Listing::Entries(nodes) => {
                &&& units(id, listing, since) == all_units(nodes@, since)
                &&& outputs(id, listing, since) == all_outputs(nodes@, since)
            },
        },
{
}

/// A build directory is gone through in turn: the compiled crates, the examples, the units of build
/// scripts, the fingerprints, the incremental compilations, and last its own entries. One that does
/// not exist asks for nothing.
pub proof fn law_build_directory_in_turn(dir: BuildDir, since: i128) -> (passed: Seq<Outcome>)
    ensures
        !dir.exists ==> scrubbed(dir, since).removals.len() == 0 && scrubbed(dir, since).fault
            is None,
        dir.exists ==> {
            &&& passed.len() == 6
            &&& passed[0] == groups(dir.deps.id, dir.deps.listing, since)
            &&& in_turn(
                passed[0],
                groups(dir.examples.id, dir.examples.listing, since),
                passed[1],
            )
            &&& in_turn(passed[1], units(dir.build.id, dir.build.listing, since), passed[2])
            &&& in_turn(
                passed[2],
                units(dir.fingerprint.id, dir.fingerprint.listing, since),
                passed[3],
            )
            &&& in_turn(
                passed[3],
                units(dir.incremental.id, dir.incremental.listing, since),
                passed[4],
            )
            &&& in_turn(passed[4], outputs(dir.top.id, dir.top.listing, since), passed[5])
            &&& scrubbed(dir, since) == passed[5]
        },
{
    let a = groups(dir.deps.id, dir.deps.listing, since);
    let b = a.and(groups(dir.examples.id, dir.examples.listing, since));
    let c = b.and(units(dir.build.id, dir.build.listing, since));
    let d = c.and(units(dir.fingerprint.id, dir.fingerprint.listing, since));
    let e = d.and(units(dir.incremental.id, dir.incremental.listing, since));
    let f = e.and(outputs(dir.top.id, dir.top.listing, since));
    seq![a, b, c, d, e, f]
}

/// The result tells whether the work stopped short, and where.
pub proof fn law_result_tells_the_fault(outcome: Outcome)
    ensures
        outcome.fault is None <==> outcome.result() is Ok,
        outcome.fault is Some ==> outcome.result() == Err::<(), Fault>(outcome.fault->0),
{
}

} // verus!
