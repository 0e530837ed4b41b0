//! What an interrupted build may have left half-written in a Cargo build directory.
//!
//! The functions here decide over what the file system answered: they name what has to be removed,
//! in the order of removal, and the answer at which the work stops short.

use crate::text::{chars_of, cut, cut_from, same_text, stands_at};
use vstd::hash_set::*;
use vstd::prelude::*;
use vstd::string::*;

verus! {

/// Cargo's lock on a build directory.
pub const BUILD_LOCK: &'static str = ".cargo-build-lock";

/// Cargo's lock on an artifact directory.
pub const TARGET_LOCK: &'static str = ".cargo-artifact-lock";

/// The lock that earlier versions of Cargo take.
pub const LEGACY_LOCK: &'static str = ".cargo-lock";

/// The directory of the compiled crates.
pub const DEPS: &'static str = "deps";

/// The directory of the compiled examples.
pub const EXAMPLES: &'static str = "examples";

/// The directory of the build scripts' units.
pub const BUILD: &'static str = "build";

/// The directory of the units' fingerprints.
pub const FINGERPRINT: &'static str = ".fingerprint";

/// The directory of the incremental compilations.
pub const INCREMENTAL: &'static str = "incremental";

/// What listing a directory gave.
pub enum Listing {
    /// There is no such directory.
    Missing,
    /// The directory could not be read.
    Failed,
    Entries(Vec<Node>),
}

/// What looking an entry up gave, without following symbolic links.
pub enum Stat {
    /// The entry is gone.
    Missing,
    /// The entry could not be looked up.
    Failed,
    Found {
        /// When the entry was last modified, in nanoseconds from the Unix epoch, where that is
        /// known.
        modified: Option<i128>,
        /// The entries of a directory. None for anything else.
        listing: Option<Listing>,
    },
}

/// An entry of a directory.
pub struct Node {
    /// By which the caller finds the entry again.
    pub id: u64,
    /// The entry's name, where it is text.
    pub name: Option<String>,
    pub stat: Stat,
}

/// A directory, and what listing it gave.
pub struct Folder {
    pub id: u64,
    pub listing: Listing,
}

/// A Cargo build directory.
pub struct BuildDir {
    /// Whether the directory exists.
    pub exists: bool,
    // The directories in it, each by its name.
    pub deps: Folder,
    pub examples: Folder,
    pub build: Folder,
    pub fingerprint: Folder,
    pub incremental: Folder,
    /// The directory itself.
    pub top: Folder,
}

/// A removal that has to be made.
#[derive(Clone, Copy, Debug, PartialEq, Eq, Structural)]
pub enum Removal {
    /// Of what is not a directory.
    File(u64),
    /// Of a directory with all that is in it.
    Tree(u64),
}

/// An answer at which the work stops.
#[derive(Clone, Copy, Debug, PartialEq, Eq, Structural)]
pub enum Fault {
    /// The entry could not be looked up.
    Stat(u64),
    /// The directory could not be read.
    List(u64),
}

/// What a directory comes to: the removals, in order, and the fault that ends them, if any.
#[verifier::ext_equal]
pub struct Outcome {
    pub removals: Seq<Removal>,
    pub fault: Option<Fault>,
}

impl Outcome {
    /// Nothing to do.
    pub open spec fn none() -> Self {
        Outcome { removals: Seq::empty(), fault: None }
    }

    /// This, then `next`, unless this stops short.
    pub open spec fn and(self, next: Outcome) -> Self {
        if self.fault is Some {
            self
        } else {
            Outcome { removals: self.removals + next.removals, fault: next.fault }
        }
    }

    /// The outcome of `fault` alone.
    pub open spec fn stop(fault: Fault) -> Self {
        Outcome { removals: Seq::empty(), fault: Some(fault) }
    }

    /// The outcome of one removal.
    pub open spec fn remove(removal: Removal) -> Self {
        Outcome { removals: seq![removal], fault: None }
    }

    pub open spec fn result(self) -> Result<(), Fault> {
        match self.fault {
            Some(fault) => Err(fault),
            None => Ok(()),
        }
    }
}

/// Whether a time is no earlier than `since`. An unknown time is not.
pub open spec fn is_modified(modified: Option<i128>, since: i128) -> bool {
    modified is Some && modified->0 >= since
}

/// The suffixes of the files that carry `lib` before the crate's name.
pub open spec fn is_archive(kind: Seq<char>) -> bool {
    kind == "a"@ || kind == "dylib"@ || kind == "rlib"@ || kind == "rmeta"@ || kind == "so"@
}

/// What the files of one compilation have in common: the name up to the first dot, for archives
/// without `lib`.
pub open spec fn key_of(name: Seq<char>) -> Seq<char> {
    let base = name.take(cut(name, '.'));
    let suffix = name.skip(cut(name, '.') + 1);
    let kind = suffix.take(cut(suffix, '.'));
    if cut(name, '.') < name.len() && is_archive(kind) && "lib"@.is_prefix_of(base) {
        base.skip(3)
    } else {
        base
    }
}

impl Node {
    /// Whether this is a file with a name that is text.
    pub open spec fn is_member(self) -> bool {
        &&& self.name is Some
        &&& self.stat matches Stat::Found { listing: None, .. }
    }

    /// Whether this was modified no earlier than `since`.
    pub open spec fn is_touched(self, since: i128) -> bool {
        self.stat matches Stat::Found { modified, .. } && is_modified(modified, since)
    }

    /// What this comes to when it is a touched unit.
    pub open spec fn removal(self) -> Removal {
        match self.stat {
            Stat::Found { listing: Some(_), .. } => Removal::Tree(self.id),
            _ => Removal::File(self.id),
        }
    }
}

/// Whether some file of the group `key` was modified no earlier than `since`.
pub open spec fn group_touched(nodes: Seq<Node>, key: Seq<char>, since: i128) -> bool {
    exists|i: int|
        0 <= i < nodes.len() && (#[trigger] nodes[i]).is_member() && key_of(nodes[i].name->0@)
            == key && nodes[i].is_touched(since)
}

/// Whether `node`, one of `nodes`, is a file of a touched group.
pub open spec fn is_stale(nodes: Seq<Node>, node: Node, since: i128) -> bool {
    node.is_member() && group_touched(nodes, key_of(node.name->0@), since)
}

/// The removals of the files of touched groups.
pub open spec fn swept(nodes: Seq<Node>, since: i128) -> Seq<Removal> {
    nodes.filter(|node: Node| is_stale(nodes, node, since)).map_values(
        |node: Node| Removal::File(node.id),
    )
}

/// What a directory of grouped files comes to: its directories first, then its own files.
pub open spec fn groups(id: u64, listing: Listing, since: i128) -> Outcome
    decreases listing, 0int,
{
    match listing {
        Listing::Missing => Outcome::none(),
        Listing::Failed => Outcome::stop(Fault::List(id)),
        Listing::Entries(nodes) => inner_groups(nodes@, since).and(
            Outcome { removals: swept(nodes@, since), fault: None },
        ),
    }
}

/// What the directories among `nodes` come to.
pub open spec fn inner_groups(nodes: Seq<Node>, since: i128) -> Outcome
    decreases nodes, nodes.len(),
{
    if nodes.len() == 0 {
        Outcome::none()
    } else {
        let last = nodes[nodes.len() - 1];
        inner_groups(nodes.subrange(0, nodes.len() - 1), since).and(
            match last.stat {
                Stat::Missing => Outcome::none(),
                Stat::Failed => Outcome::stop(Fault::Stat(last.id)),
                Stat::Found { listing: Some(listing), .. } => groups(last.id, listing, since),
                Stat::Found { listing: None, .. } => Outcome::none(),
            },
        )
    }
}

/// Whether an entry, or anything below it, was modified no earlier than `since`: what the first
/// answer says that settles it.
pub open spec fn unit_touched(node: Node, since: i128) -> Result<bool, Fault>
    decreases node, 0int,
{
    match node.stat {
        Stat::Missing => Ok(false),
        Stat::Failed => Err(Fault::Stat(node.id)),
        Stat::Found { modified, listing } => if is_modified(modified, since) {
            Ok(true)
        } else {
            match listing {
                Some(Listing::Entries(nodes)) => some_touched(nodes@, since),
                Some(Listing::Failed) => Err(Fault::List(node.id)),
                _ => Ok(false),
            }
        },
    }
}

/// The same of the first of `nodes` that settles it.
pub open spec fn some_touched(nodes: Seq<Node>, since: i128) -> Result<bool, Fault>
    decreases nodes, nodes.len(),
{
    if nodes.len() == 0 {
        Ok(false)
    } else {
        match some_touched(nodes.subrange(0, nodes.len() - 1), since) {
            Ok(false) => unit_touched(nodes[nodes.len() - 1], since),
            settled => settled,
        }
    }
}

/// What a unit comes to.
pub open spec fn unit(node: Node, since: i128) -> Outcome {
    match unit_touched(node, since) {
        Ok(true) => Outcome::remove(node.removal()),
        Ok(false) => Outcome::none(),
        Err(fault) => Outcome::stop(fault),
    }
}

/// What a sequence of units comes to.
pub open spec fn all_units(nodes: Seq<Node>, since: i128) -> Outcome
    decreases nodes.len(),
{
    if nodes.len() == 0 {
        Outcome::none()
    } else {
        all_units(nodes.drop_last(), since).and(unit(nodes.last(), since))
    }
}

/// What a directory of units comes to.
pub open spec fn units(id: u64, listing: Listing, since: i128) -> Outcome {
    match listing {
        Listing::Missing => Outcome::none(),
        Listing::Failed => Outcome::stop(Fault::List(id)),
        Listing::Entries(nodes) => all_units(nodes@, since),
    }
}

/// Whether a name is one of Cargo's locks.
pub open spec fn is_lock(name: Seq<char>) -> bool {
    name == BUILD_LOCK@ || name == TARGET_LOCK@ || name == LEGACY_LOCK@
}

/// Whether a name is one of the directories that Cargo keeps in a build directory.
pub open spec fn is_cargo_dir(name: Seq<char>) -> bool {
    name == FINGERPRINT@ || name == BUILD@ || name == DEPS@ || name == EXAMPLES@ || name
        == INCREMENTAL@
}

/// Whether an entry of a build directory is Cargo's own.
pub open spec fn is_reserved(node: Node) -> bool {
    node.name is Some && (is_lock(node.name->0@) || is_cargo_dir(node.name->0@))
}

/// What an entry of a build directory comes to.
pub open spec fn output(node: Node, since: i128) -> Outcome {
    if is_reserved(node) {
        Outcome::none()
    } else {
        match node.stat {
            Stat::Missing => Outcome::none(),
            Stat::Failed => Outcome::stop(Fault::Stat(node.id)),
            Stat::Found { modified, listing } => if listing is None && is_modified(
                modified,
                since,
            ) {
                Outcome::remove(Removal::File(node.id))
            } else {
                Outcome::none()
            },
        }
    }
}

/// What the entries of a build directory come to.
pub open spec fn all_outputs(nodes: Seq<Node>, since: i128) -> Outcome
    decreases nodes.len(),
{
    if nodes.len() == 0 {
        Outcome::none()
    } else {
        all_outputs(nodes.drop_last(), since).and(output(nodes.last(), since))
    }
}

/// What the build directory's own entries come to.
pub open spec fn outputs(id: u64, listing: Listing, since: i128) -> Outcome {
    match listing {
        Listing::Missing => Outcome::none(),
        Listing::Failed => Outcome::stop(Fault::List(id)),
        Listing::Entries(nodes) => all_outputs(nodes@, since),
    }
}

/// What a build directory comes to.
pub open spec fn scrubbed(dir: BuildDir, since: i128) -> Outcome {
    if !dir.exists {
        Outcome::none()
    } else {
        groups(dir.deps.id, dir.deps.listing, since).and(
            groups(dir.examples.id, dir.examples.listing, since),
        ).and(units(dir.build.id, dir.build.listing, since)).and(
            units(dir.fingerprint.id, dir.fingerprint.listing, since),
        ).and(units(dir.incremental.id, dir.incremental.listing, since)).and(
            outputs(dir.top.id, dir.top.listing, since),
        )
    }
}

/// Whether a time is no earlier than `since`.
pub fn modified(time: Option<i128>, since: i128) -> (r: bool)
    ensures
        r == is_modified(time, since),
{
    match time {
        Some(time) => time >= since,
        None => false,
    }
}

/// What the files of one compilation have in common.
pub fn group_key(name: &str) -> (r: String)
    ensures
        r@ == key_of(name@),
{
    let all = chars_of(name);
    let len: usize = all.len();
    let dot: usize = cut_from(&all, 0, '.');
    assert(all@.skip(0) =~= all@);
    let mut from: usize = 0;
    if dot < len {
        let end: usize = cut_from(&all, dot + 1, '.');
        let kind = name.substring_char(dot + 1, end);
        let lib = chars_of("lib");
        proof {
            reveal_strlit("lib");
            let suffix = name@.skip(dot + 1);
            assert(suffix.take(end - (dot + 1)) =~= kind@);
            let base = name@.take(dot as int);
            if dot >= 3 {
                assert(base.subrange(0, 3) =~= all@.skip(0).subrange(0, 3));
            }
        }
        if (same_text(kind, "a") || same_text(kind, "dylib") || same_text(kind, "rlib")
            || same_text(kind, "rmeta") || same_text(kind, "so")) && dot >= 3 && stands_at(
            &all,
            0,
            &lib,
        ) {
            from = 3;
        }
    }
    assert(name@.subrange(0, dot as int) =~= name@.take(dot as int));
    assert(from == 3 ==> name@.subrange(3, dot as int) =~= name@.take(dot as int).skip(3));
    name.substring_char(from, dot).to_owned()
}

/// The groups of `nodes` of which some file was modified no earlier than `since`.
fn touched_groups(nodes: &Vec<Node>, since: i128) -> (r: StringHashSet)
    ensures
        forall|key: Seq<char>| #[trigger]
            r@.contains(key) == group_touched(nodes@, key, since),
{
    let mut touched = StringHashSet::new();
    let mut i: usize = 0;
    while i < nodes.len()
        invariant
            i <= nodes@.len(),
            forall|key: Seq<char>| #[trigger]
                touched@.contains(key) == exists|j: int|
                    0 <= j < i && (#[trigger] nodes@[j]).is_member() && key_of(
                        nodes@[j].name->0@,
                    ) == key && nodes@[j].is_touched(since),
        decreases nodes@.len() - i,
    {
        let ghost before = touched@;
        if let Some(name) = &nodes[i].name {
            if let Stat::Found { modified: time, listing: None } = &nodes[i].stat {
                if modified(*time, since) {
                    touched.insert(group_key(name.as_str()));
                }
            }
        }
        proof {
            let node = nodes@[i as int];
            assert forall|key: Seq<char>| #[trigger]
                touched@.contains(key) == exists|j: int|
                    0 <= j < i + 1 && (#[trigger] nodes@[j]).is_member() && key_of(
                        nodes@[j].name->0@,
                    ) == key && nodes@[j].is_touched(since) by {
                if before.contains(key) {
                    let j = choose|j: int|
                        0 <= j < i && (#[trigger] nodes@[j]).is_member() && key_of(
                            nodes@[j].name->0@,
                        ) == key && nodes@[j].is_touched(since);
                    assert(nodes@[j].is_member());
                }
                if touched@.contains(key) && !before.contains(key) {
                    assert(node.is_member() && node.is_touched(since));
                }
            }
        }
        i = i + 1;
    }
    touched
}

/// Adds the removals that a directory of grouped files comes to.
pub fn scrub_groups(id: u64, listing: &Listing, since: i128, out: &mut Vec<Removal>) -> (r: Result<
    (),
    Fault,
>)
    ensures
        final(out)@ == old(out)@ + groups(id, *listing, since).removals,
        r == groups(id, *listing, since).result(),
    decreases *listing,
{
    let nodes = match listing {
        Listing::Missing => {
            assert(out@ =~= old(out)@ + Seq::<Removal>::empty());
            return Ok(());
        },
        Listing::Failed => {
            assert(out@ =~= old(out)@ + Seq::<Removal>::empty());
            return Err(Fault::List(id));
        },
        Listing::Entries(nodes) => nodes,
    };
    let ghost before = out@;
    let mut i: usize = 0;
    assert(nodes@.subrange(0, 0) =~= Seq::<Node>::empty());
    assert(out@ =~= before + inner_groups(nodes@.subrange(0, 0), since).removals);
    while i < nodes.len()
        invariant
            i <= nodes@.len(),
            *listing == Listing::Entries(*nodes),
            before == old(out)@,
            inner_groups(nodes@.subrange(0, i as int), since).fault is None,
            out@ == before + inner_groups(nodes@.subrange(0, i as int), since).removals,
        decreases nodes@.len() - i,
    {
        let node = &nodes[i];
        let ghost done = nodes@.subrange(0, i as int);
        let ghost more = nodes@.subrange(0, i + 1);
        proof {
            assert(more.subrange(0, more.len() - 1) =~= done);
            assert(more[more.len() - 1] == *node);
        }
        match &node.stat {
            Stat::Missing => {
                assert(out@ =~= before + inner_groups(more, since).removals);
            },
            Stat::Failed => {
                proof {
                    lemma_inner_fault(nodes@, i + 1, since);
                    assert(out@ =~= before + inner_groups(more, since).removals);
                }
                return Err(Fault::Stat(node.id));
            },
            Stat::Found { listing: None, .. } => {
                assert(out@ =~= before + inner_groups(more, since).removals);
            },
            Stat::Found { listing: Some(inner), .. } => {
                match scrub_groups(node.id, inner, since, out) {
                    Ok(()) => {
                        assert(out@ =~= before + inner_groups(more, since).removals);
                    },
                    Err(fault) => {
                        proof {
                            lemma_inner_fault(nodes@, i + 1, since);
                            assert(out@ =~= before + inner_groups(more, since).removals);
                        }
                        return Err(fault);
                    },
                }
            },
        }
        i = i + 1;
    }
    assert(nodes@.subrange(0, i as int) =~= nodes@);
    let touched = touched_groups(nodes, since);
    let ghost scrubbed = out@;
    let ghost stale = |node: Node| is_stale(nodes@, node, since);
    let ghost removal = |node: Node| Removal::File(node.id);
    let mut k: usize = 0;
    assert(out@ =~= scrubbed + nodes@.take(0).filter(stale).map_values(removal)) by {
        reveal(Seq::filter);
    }
    while k < nodes.len()
        invariant
            k <= nodes@.len(),
            stale == (|node: Node| is_stale(nodes@, node, since)),
            removal == (|node: Node| Removal::File(node.id)),
            forall|key: Seq<char>| #[trigger]
                touched@.contains(key) == group_touched(nodes@, key, since),
            out@ == scrubbed + nodes@.take(k as int).filter(stale).map_values(removal),
        decreases nodes@.len() - k,
    {
        let node = &nodes[k];
        proof {
            reveal(Seq::filter);
            assert(nodes@.take(k + 1).drop_last() =~= nodes@.take(k as int));
            assert(nodes@.take(k + 1).last() == *node);
        }
        if let Some(name) = &node.name {
            if let Stat::Found { listing: None, .. } = &node.stat {
                if touched.contains(group_key(name.as_str()).as_str()) {
                    out.push(Removal::File(node.id));
                }
            }
        }
        assert(out@ =~= scrubbed + nodes@.take(k + 1).filter(stale).map_values(removal));
        k = k + 1;
    }
    assert(nodes@.take(k as int) =~= nodes@);
    assert(out@ =~= before + groups(id, *listing, since).removals);
    Ok(())
}

/// Once the directories among the first entries stop short, so do those among all.
proof fn lemma_inner_fault(nodes: Seq<Node>, n: int, since: i128)
    requires
        0 <= n <= nodes.len(),
        inner_groups(nodes.subrange(0, n), since).fault is Some,
    ensures
        inner_groups(nodes, since) == inner_groups(nodes.subrange(0, n), since),
    decreases nodes.len() - n,
{
    if n < nodes.len() {
        let more = nodes.subrange(0, n + 1);
        assert(more.subrange(0, n) =~= nodes.subrange(0, n));
        lemma_inner_fault(nodes, n + 1, since);
    } else {
        assert(nodes.subrange(0, n) =~= nodes);
    }
}

/// Once the first entries settle it, so do all.
proof fn lemma_some_settled(nodes: Seq<Node>, n: int, since: i128)
    requires
        0 <= n <= nodes.len(),
        some_touched(nodes.subrange(0, n), since) != Ok::<bool, Fault>(false),
    ensures
        some_touched(nodes, since) == some_touched(nodes.subrange(0, n), since),
    decreases nodes.len() - n,
{
    if n < nodes.len() {
        let more = nodes.subrange(0, n + 1);
        assert(more.subrange(0, n) =~= nodes.subrange(0, n));
        lemma_some_settled(nodes, n + 1, since);
    } else {
        assert(nodes.subrange(0, n) =~= nodes);
    }
}

/// Once the first units stop short, so do all.
proof fn lemma_units_fault(nodes: Seq<Node>, n: int, since: i128)
    requires
        0 <= n <= nodes.len(),
        all_units(nodes.take(n), since).fault is Some,
    ensures
        all_units(nodes, since) == all_units(nodes.take(n), since),
    decreases nodes.len() - n,
{
    if n < nodes.len() {
        assert(nodes.take(n + 1).drop_last() =~= nodes.take(n));
        lemma_units_fault(nodes, n + 1, since);
    } else {
        assert(nodes.take(n) =~= nodes);
    }
}

/// Once the first entries stop short, so do all.
proof fn lemma_outputs_fault(nodes: Seq<Node>, n: int, since: i128)
    requires
        0 <= n <= nodes.len(),
        all_outputs(nodes.take(n), since).fault is Some,
    ensures
        all_outputs(nodes, since) == all_outputs(nodes.take(n), since),
    decreases nodes.len() - n,
{
    if n < nodes.len() {
        assert(nodes.take(n + 1).drop_last() =~= nodes.take(n));
        lemma_outputs_fault(nodes, n + 1, since);
    } else {
        assert(nodes.take(n) =~= nodes);
    }
}

/// Whether an entry, or anything below it, was modified no earlier than `since`.
pub fn tree_touched(node: &Node, since: i128) -> (r: Result<bool, Fault>)
    ensures
        r == unit_touched(*node, since),
    decreases *node,
{
    let nodes = match &node.stat {
        Stat::Missing => {
            return Ok(false);
        },
        Stat::Failed => {
            return Err(Fault::Stat(node.id));
        },
        Stat::Found { modified: time, listing } => {
            if modified(*time, since) {
                return Ok(true);
            }
            match listing {
                Some(Listing::Entries(nodes)) => nodes,
                Some(Listing::Failed) => {
                    return Err(Fault::List(node.id));
                },
                _ => {
                    return Ok(false);
                },
            }
        },
    };
    let mut i: usize = 0;
    assert(unit_touched(*node, since) == some_touched(nodes@, since));
    while i < nodes.len()
        invariant
            i <= nodes@.len(),
            node.stat matches Stat::Found { listing: Some(Listing::Entries(v)), .. } && v == *nodes,
            unit_touched(*node, since) == some_touched(nodes@, since),
            some_touched(nodes@.subrange(0, i as int), since) == Ok::<bool, Fault>(false),
        decreases nodes@.len() - i,
    {
        let ghost more = nodes@.subrange(0, i + 1);
        proof {
            assert(more.subrange(0, more.len() - 1) =~= nodes@.subrange(0, i as int));
            assert(more[more.len() - 1] == nodes@[i as int]);
        }
        match tree_touched(&nodes[i], since) {
            Ok(false) => {},
            settled => {
                proof {
                    lemma_some_settled(nodes@, i + 1, since);
                }
                return settled;
            },
        }
        i = i + 1;
    }
    assert(nodes@.subrange(0, i as int) =~= nodes@);
    Ok(false)
}

/// The removal of a unit.
pub fn remove(node: &Node) -> (r: Removal)
    ensures
        r == node.removal(),
{
    match &node.stat {
        Stat::Found { listing: Some(_), .. } => Removal::Tree(node.id),
        _ => Removal::File(node.id),
    }
}

/// Adds the removals that a directory of units comes to.
pub fn scrub_units(id: u64, listing: &Listing, since: i128, out: &mut Vec<Removal>) -> (r: Result<
    (),
    Fault,
>)
    ensures
        final(out)@ == old(out)@ + units(id, *listing, since).removals,
        r == units(id, *listing, since).result(),
{
    let nodes = match listing {
        Listing::Missing => {
            assert(out@ =~= old(out)@ + Seq::<Removal>::empty());
            return Ok(());
        },
        Listing::Failed => {
            assert(out@ =~= old(out)@ + Seq::<Removal>::empty());
            return Err(Fault::List(id));
        },
        Listing::Entries(nodes) => nodes,
    };
    let ghost before = out@;
    let mut i: usize = 0;
    assert(out@ =~= before + all_units(nodes@.take(0), since).removals);
    while i < nodes.len()
        invariant
            i <= nodes@.len(),
            *listing == Listing::Entries(*nodes),
            before == old(out)@,
            all_units(nodes@.take(i as int), since).fault is None,
            out@ == before + all_units(nodes@.take(i as int), since).removals,
        decreases nodes@.len() - i,
    {
        let node = &nodes[i];
        let ghost more = nodes@.take(i + 1);
        proof {
            assert(more.drop_last() =~= nodes@.take(i as int));
            assert(more.last() == *node);
        }
        match tree_touched(node, since) {
            Ok(true) => {
                out.push(remove(node));
            },
            Ok(false) => {},
            Err(fault) => {
                proof {
                    lemma_units_fault(nodes@, i + 1, since);
                    assert(out@ =~= before + all_units(more, since).removals);
                }
                return Err(fault);
            },
        }
        assert(out@ =~= before + all_units(more, since).removals);
        i = i + 1;
    }
    assert(nodes@.take(i as int) =~= nodes@);
    Ok(())
}

/// Whether an entry of a build directory is Cargo's own.
fn reserved(node: &Node) -> (r: bool)
    ensures
        r == is_reserved(*node),
{
    match &node.name {
        Some(name) => {
            let name = name.as_str();
            same_text(name, BUILD_LOCK) || same_text(name, TARGET_LOCK) || same_text(
                name,
                LEGACY_LOCK,
            ) || same_text(name, FINGERPRINT) || same_text(name, BUILD) || same_text(name, DEPS)
                || same_text(name, EXAMPLES) || same_text(name, INCREMENTAL)
        },
        None => false,
    }
}

/// Adds the removals that the build directory's own entries come to.
pub fn scrub_top(id: u64, listing: &Listing, since: i128, out: &mut Vec<Removal>) -> (r: Result<
    (),
    Fault,
>)
    ensures
        final(out)@ == old(out)@ + outputs(id, *listing, since).removals,
        r == outputs(id, *listing, since).result(),
{
    let nodes = match listing {
        Listing::Missing => {
            assert(out@ =~= old(out)@ + Seq::<Removal>::empty());
            return Ok(());
        },
        Listing::Failed => {
            assert(out@ =~= old(out)@ + Seq::<Removal>::empty());
            return Err(Fault::List(id));
        },
        Listing::Entries(nodes) => nodes,
    };
    let ghost before = out@;
    let mut i: usize = 0;
    assert(out@ =~= before + all_outputs(nodes@.take(0), since).removals);
    while i < nodes.len()
        invariant
            i <= nodes@.len(),
            *listing == Listing::Entries(*nodes),
            before == old(out)@,
            all_outputs(nodes@.take(i as int), since).fault is None,
            out@ == before + all_outputs(nodes@.take(i as int), since).removals,
        decreases nodes@.len() - i,
    {
        let node = &nodes[i];
        let ghost more = nodes@.take(i + 1);
        proof {
            assert(more.drop_last() =~= nodes@.take(i as int));
            assert(more.last() == *node);
        }
        if !reserved(node) {
            match &node.stat {
                Stat::Missing => {},
                Stat::Failed => {
                    proof {
                        lemma_outputs_fault(nodes@, i + 1, since);
                        assert(out@ =~= before + all_outputs(more, since).removals);
                    }
                    return Err(Fault::Stat(node.id));
                },
                Stat::Found { modified: time, listing } => {
                    if listing.is_none() && modified(*time, since) {
                        out.push(Removal::File(node.id));
                    }
                },
            }
        }
        assert(out@ =~= before + all_outputs(more, since).removals);
        i = i + 1;
    }
    assert(nodes@.take(i as int) =~= nodes@);
    Ok(())
}

/// Adds the removals that a build directory comes to.
pub fn scrub(dir: &BuildDir, since: i128, out: &mut Vec<Removal>) -> (r: Result<(), Fault>)
    ensures
        final(out)@ == old(out)@ + scrubbed(*dir, since).removals,
        r == scrubbed(*dir, since).result(),
{
    let ghost start = out@;
    if !dir.exists {
        assert(out@ =~= old(out)@ + Seq::<Removal>::empty());
        return Ok(());
    }
    let first = scrub_groups(dir.deps.id, &dir.deps.listing, since, out);
    if first.is_err() {
        return first;
    }
    let second = scrub_groups(dir.examples.id, &dir.examples.listing, since, out);
    if second.is_err() {
        assert(out@ =~= start + scrubbed(*dir, since).removals);
        return second;
    }
    let third = scrub_units(dir.build.id, &dir.build.listing, since, out);
    if third.is_err() {
        assert(out@ =~= start + scrubbed(*dir, since).removals);
        return third;
    }
    let fourth = scrub_units(dir.fingerprint.id, &dir.fingerprint.listing, since, out);
    if fourth.is_err() {
        assert(out@ =~= start + scrubbed(*dir, since).removals);
        return fourth;
    }
    let fifth = scrub_units(dir.incremental.id, &dir.incremental.listing, since, out);
    if fifth.is_err() {
        assert(out@ =~= start + scrubbed(*dir, since).removals);
        return fifth;
    }
    let last = scrub_top(dir.top.id, &dir.top.listing, since, out);
    assert(out@ =~= start + scrubbed(*dir, since).removals);
    last
}

} // verus!
