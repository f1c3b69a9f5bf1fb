//! What holds of every resolution: which root wins a name, when a resolution
//! succeeds, and what the name of the runtime directory depends on.

use crate::paths::within;
use crate::toolbox_resolver::{
    digest_name, entry_fault, first_fault, merge_entries, merge_root, merge_roots, resolution, runtime_bin,
    runtime_root, stamp, stamps, step_for, terms_of, with_entry, EntryKind, Fault,
    ResolveSettings, Step, Tally, Terms, ToolboxRoot, WalkEntry,
};
use vstd::prelude::*;

verus! {

/// The runtime directory that the links `steps` make, created in order: for
/// each relative path the link that was created last.
pub open spec fn merged(steps: Seq<Step>) -> Map<Seq<char>, Step>
    decreases steps.len(),
{
    if steps.len() == 0 {
        Map::empty()
    } else {
        merged(steps.drop_last()).insert(steps.last().rel, steps.last())
    }
}

/// Whether the walk `entries` holds a regular file at the relative path
/// `rel`.
pub open spec fn lists_file(entries: Seq<WalkEntry>, rel: Seq<char>) -> bool {
    exists|j: int|
        0 <= j < entries.len() && (#[trigger] entries[j]).kind == EntryKind::File
            && entries[j].rel@ == rel
}

/// Whether `root` has a regular file at `bin/rel`.
pub open spec fn provides(root: ToolboxRoot, rel: Seq<char>) -> bool {
    root.bin is Some && lists_file(root.bin->0@, rel)
}

/// Whether `roots` has a root `i`, and that root has a regular file at
/// `bin/rel`.
pub open spec fn root_provides(roots: Seq<ToolboxRoot>, i: int, rel: Seq<char>) -> bool {
    0 <= i < roots.len() && provides(roots[i], rel)
}

/// How many regular files the walk `entries` holds.
pub open spec fn file_count(entries: Seq<WalkEntry>) -> nat
    decreases entries.len(),
{
    if entries.len() == 0 {
        0
    } else {
        file_count(entries.drop_last()) + if entries.last().kind == EntryKind::File {
            1nat
        } else {
            0nat
        }
    }
}

/// The sizes of the regular files that the walk `entries` holds, added up.
pub open spec fn file_bytes(entries: Seq<WalkEntry>) -> nat
    decreases entries.len(),
{
    if entries.len() == 0 {
        0
    } else {
        file_bytes(entries.drop_last()) + if entries.last().kind == EntryKind::File {
            entries.last().size as nat
        } else {
            0nat
        }
    }
}

/// How many regular files the roots hold below their `bin/`, a name that
/// several roots provide counted once for each.
pub open spec fn total_files(roots: Seq<ToolboxRoot>) -> nat
    decreases roots.len(),
{
    if roots.len() == 0 {
        0
    } else {
        total_files(roots.drop_last()) + match roots.last().bin {
            Some(entries) => file_count(entries@),
            None => 0,
        }
    }
}

/// The sizes of the regular files that the roots hold below their `bin/`,
/// added up.
pub open spec fn total_bytes(roots: Seq<ToolboxRoot>) -> nat
    decreases roots.len(),
{
    if roots.len() == 0 {
        0
    } else {
        total_bytes(roots.drop_last()) + match roots.last().bin {
            Some(entries) => file_bytes(entries@),
            None => 0,
        }
    }
}

/// Whether every regular file of the walk could be read.
pub open spec fn files_readable(entries: Seq<WalkEntry>) -> bool {
    forall|j: int|
        0 <= j < entries.len() && (#[trigger] entries[j]).kind == EntryKind::File
            ==> entries[j].fault is None
}

/// Whether nothing but a limit can fail the merge of `root`: it has no
/// `bin/`, or every entry below it could be read and every symlink stays
/// inside the root.
pub open spec fn sound(root: ToolboxRoot) -> bool {
    match root.bin {
        None => true,
        Some(entries) => first_fault(root.path@, entries@) is None && files_readable(entries@),
    }
}

/// Whether every root is sound.
pub open spec fn all_sound(roots: Seq<ToolboxRoot>) -> bool {
    forall|i: int| 0 <= i < roots.len() ==> sound(#[trigger] roots[i])
}

/// Whether a merge failed on the limit on files.
pub open spec fn hits_file_limit(r: Result<Tally, Fault>) -> bool {
    r is Err && r->Err_0 is FileLimit
}

/// Whether a merge failed on the limit on bytes.
pub open spec fn hits_size_limit(r: Result<Tally, Fault>) -> bool {
    r is Err && r->Err_0 is SizeLimit
}

/// A walk fails the check of its entries on a fault of the file system or on
/// a symlink that leaves the root, never on a limit.
proof fn lemma_fault_kinds(root: Seq<char>, entries: Seq<WalkEntry>)
    ensures
        first_fault(root, entries) matches Some(fault) ==> fault is Io || fault is SymlinkEscape,
    decreases entries.len(),
{
    if entries.len() > 0 {
        lemma_fault_kinds(root, entries.drop_last());
    }
}

proof fn lemma_entries_counts(
    tally: Tally,
    index: int,
    root: Seq<char>,
    entries: Seq<WalkEntry>,
    terms: Terms,
)
    requires
        tally.files <= terms.max_files,
        tally.bytes <= terms.max_bytes,
    ensures
        merge_entries(tally, index, root, entries, terms) is Ok <==> files_readable(entries)
            && tally.files + file_count(entries) <= terms.max_files && tally.bytes + file_bytes(
            entries,
        ) <= terms.max_bytes,
        merge_entries(tally, index, root, entries, terms) matches Ok(after) ==> after.files
            == tally.files + file_count(entries) && after.bytes == tally.bytes + file_bytes(
            entries,
        ),
        files_readable(entries) && merge_entries(tally, index, root, entries, terms) is Err ==> (
        merge_entries(tally, index, root, entries, terms) == Err::<Tally, Fault>(
            Fault::FileLimit { limit: terms.max_files },
        ) || merge_entries(tally, index, root, entries, terms) == Err::<Tally, Fault>(
            Fault::SizeLimit { limit: terms.max_bytes },
        )),
        hits_file_limit(merge_entries(tally, index, root, entries, terms)) ==> tally.files
            + file_count(entries) > terms.max_files,
        hits_size_limit(merge_entries(tally, index, root, entries, terms)) ==> tally.bytes
            + file_bytes(entries) > terms.max_bytes,
    decreases entries.len(),
{
    if entries.len() > 0 {
        let head = entries.drop_last();
        lemma_entries_counts(tally, index, root, head, terms);
        assert forall|j: int| 0 <= j < head.len() implies head[j] == entries[j] by {}
        if files_readable(entries) {
            assert forall|j: int|
                0 <= j < head.len() && (#[trigger] head[j]).kind == EntryKind::File implies head[j].fault is None by {
                assert(head[j] == entries[j]);
            }
        }
        if files_readable(head) && (entries.last().kind == EntryKind::File
            ==> entries.last().fault is None) {
            assert forall|j: int|
                0 <= j < entries.len() && (#[trigger] entries[j]).kind
                    == EntryKind::File implies entries[j].fault is None by {
                if j < head.len() {
                    assert(head[j] == entries[j]);
                }
            }
        }
        if entries.last().kind == EntryKind::File && entries.last().fault is Some {
            assert(entries[entries.len() - 1].kind == EntryKind::File);
            assert(!files_readable(entries));
        }
        let whole = merge_entries(tally, index, root, entries, terms);
        match merge_entries(tally, index, root, head, terms) {
            Ok(before) => {
                assert(whole == with_entry(before, index, root, entries.last(), terms));
            },
            Err(fault) => {
                assert(whole == Err::<Tally, Fault>(fault));
            },
        }
    }
}

proof fn lemma_roots_counts(roots: Seq<ToolboxRoot>, terms: Terms)
    ensures
        merge_roots(roots, terms) is Ok <==> all_sound(roots) && total_files(roots)
            <= terms.max_files && total_bytes(roots) <= terms.max_bytes,
        merge_roots(roots, terms) matches Ok(after) ==> after.files == total_files(roots)
            && after.bytes == total_bytes(roots),
        all_sound(roots) && merge_roots(roots, terms) is Err ==> (merge_roots(roots, terms)
            == Err::<Tally, Fault>(Fault::FileLimit { limit: terms.max_files }) || merge_roots(
            roots,
            terms,
        ) == Err::<Tally, Fault>(Fault::SizeLimit { limit: terms.max_bytes })),
        hits_file_limit(merge_roots(roots, terms)) ==> total_files(roots) > terms.max_files,
        hits_size_limit(merge_roots(roots, terms)) ==> total_bytes(roots) > terms.max_bytes,
    decreases roots.len(),
{
    if roots.len() > 0 {
        let head = roots.drop_last();
        let last = roots.last();
        lemma_roots_counts(head, terms);
        assert forall|i: int| 0 <= i < head.len() implies head[i] == roots[i] by {}
        if all_sound(roots) {
            assert forall|i: int| 0 <= i < head.len() implies sound(#[trigger] head[i]) by {
                assert(head[i] == roots[i]);
            }
            assert(sound(roots[roots.len() - 1]));
        }
        if all_sound(head) && sound(last) {
            assert forall|i: int| 0 <= i < roots.len() implies sound(#[trigger] roots[i]) by {
                if i < head.len() {
                    assert(head[i] == roots[i]);
                }
            }
        }
        match merge_roots(head, terms) {
            Ok(before) => {
                match last.bin {
                    Some(entries) => {
                        lemma_fault_kinds(last.path@, entries@);
                        lemma_entries_counts(
                            before,
                            roots.len() - 1,
                            last.path@,
                            entries@,
                            terms,
                        );
                    },
                    None => {},
                }
            },
            Err(_) => {},
        }
    }
}

/// A resolution succeeds exactly where there is a root, every root is sound
/// and the files of all roots together stay within both limits. It then
/// counts every regular file of every root, and adds up their sizes.
pub proof fn lemma_resolution_succeeds(roots: Seq<ToolboxRoot>, settings: ResolveSettings)
    ensures
        resolution(roots, settings) is Ok <==> roots.len() > 0 && all_sound(roots) && total_files(
            roots,
        ) <= settings.max_files && total_bytes(roots) <= settings.max_bytes,
        resolution(roots, settings) matches Ok(tally) ==> tally.files == total_files(roots)
            && tally.bytes == total_bytes(roots),
{
    lemma_roots_counts(roots, terms_of(roots, settings));
}

/// Where every root is sound and the files of all roots together exceed a
/// limit, a resolution fails on a limit: on the limit on files where only
/// the number of files is too large, on the limit on bytes where only the
/// number of bytes is, and on one of the two where both are.
pub proof fn lemma_resolution_limits(roots: Seq<ToolboxRoot>, settings: ResolveSettings)
    requires
        roots.len() > 0,
        all_sound(roots),
        total_files(roots) > settings.max_files || total_bytes(roots) > settings.max_bytes,
    ensures
        resolution(roots, settings) == Err::<Tally, Fault>(
            Fault::FileLimit { limit: settings.max_files },
        ) || resolution(roots, settings) == Err::<Tally, Fault>(
            Fault::SizeLimit { limit: settings.max_bytes },
        ),
        total_bytes(roots) <= settings.max_bytes ==> resolution(roots, settings) == Err::<
            Tally,
            Fault,
        >(Fault::FileLimit { limit: settings.max_files }),
        total_files(roots) <= settings.max_files ==> resolution(roots, settings) == Err::<
            Tally,
            Fault,
        >(Fault::SizeLimit { limit: settings.max_bytes }),
{
    lemma_roots_counts(roots, terms_of(roots, settings));
}

/// A resolution fails on a limit only where the files of all roots together
/// exceed that limit.
pub proof fn lemma_limit_is_exceeded(roots: Seq<ToolboxRoot>, settings: ResolveSettings)
    ensures
        hits_file_limit(resolution(roots, settings)) ==> total_files(roots)
            > settings.max_files,
        hits_size_limit(resolution(roots, settings)) ==> total_bytes(roots)
            > settings.max_bytes,
{
    lemma_roots_counts(roots, terms_of(roots, settings));
}

/// The runtime directory after the entries of one root were merged into
/// `tally`.
pub open spec fn entries_plan(
    tally: Tally,
    index: int,
    root: Seq<char>,
    entries: Seq<WalkEntry>,
    terms: Terms,
) -> Map<Seq<char>, Step> {
    merged(merge_entries(tally, index, root, entries, terms)->Ok_0.steps)
}

proof fn lemma_entries_merged(
    tally: Tally,
    index: int,
    root: Seq<char>,
    entries: Seq<WalkEntry>,
    terms: Terms,
)
    requires
        merge_entries(tally, index, root, entries, terms) is Ok,
    ensures
        forall|rel: Seq<char>| #[trigger]
            merged(tally.steps).contains_key(rel) ==> entries_plan(
                tally,
                index,
                root,
                entries,
                terms,
            ).contains_key(rel),
        forall|rel: Seq<char>| #[trigger]
            entries_plan(tally, index, root, entries, terms).contains_key(rel) ==> (merged(
                tally.steps,
            ).contains_key(rel) && entries_plan(tally, index, root, entries, terms)[rel] == merged(
                tally.steps,
            )[rel]) || (lists_file(entries, rel) && entries_plan(
                tally,
                index,
                root,
                entries,
                terms,
            )[rel] == step_for(index, root, rel, terms.bin)),
        forall|rel: Seq<char>| #[trigger]
            lists_file(entries, rel) ==> entries_plan(
                tally,
                index,
                root,
                entries,
                terms,
            ).contains_key(rel) && entries_plan(tally, index, root, entries, terms)[rel]
                == step_for(index, root, rel, terms.bin),
    decreases entries.len(),
{
    let before = merged(tally.steps);
    let after = entries_plan(tally, index, root, entries, terms);
    if entries.len() == 0 {
        assert(after == before);
        assert forall|rel: Seq<char>| #[trigger] lists_file(entries, rel) implies after.contains_key(
            rel,
        ) && after[rel] == step_for(index, root, rel, terms.bin) by {}
    } else {
        let head = entries.drop_last();
        let last = entries.last();
        lemma_entries_merged(tally, index, root, head, terms);
        let mid_tally = merge_entries(tally, index, root, head, terms)->Ok_0;
        let mid = entries_plan(tally, index, root, head, terms);
        let end_tally = with_entry(mid_tally, index, root, last, terms)->Ok_0;
        assert(after == merged(end_tally.steps));
        if last.kind == EntryKind::File {
            let step = step_for(index, root, last.rel@, terms.bin);
            assert(end_tally.steps == mid_tally.steps.push(step));
            assert(end_tally.steps.drop_last() == mid_tally.steps);
            assert(after == mid.insert(last.rel@, step));
        } else {
            assert(after == mid);
        }
        assert forall|rel: Seq<char>| #[trigger] before.contains_key(rel) implies after.contains_key(
            rel,
        ) by {
            assert(mid.contains_key(rel));
        }
        assert forall|rel: Seq<char>| lists_file(head, rel) implies lists_file(entries, rel) by {
            let j = choose|j: int|
                0 <= j < head.len() && (#[trigger] head[j]).kind == EntryKind::File
                    && head[j].rel@ == rel;
            assert(entries[j] == head[j]);
        }
        assert forall|rel: Seq<char>| #[trigger]
            after.contains_key(rel) implies (before.contains_key(rel) && after[rel]
            == before[rel]) || (lists_file(entries, rel) && after[rel] == step_for(
            index,
            root,
            rel,
            terms.bin,
        )) by {
            if last.kind == EntryKind::File && rel == last.rel@ {
                assert(entries[entries.len() - 1].kind == EntryKind::File);
            } else {
                assert(mid.contains_key(rel));
            }
        }
        assert forall|rel: Seq<char>| #[trigger] lists_file(entries, rel) implies after.contains_key(
            rel,
        ) && after[rel] == step_for(index, root, rel, terms.bin) by {
            let j = choose|j: int|
                0 <= j < entries.len() && (#[trigger] entries[j]).kind == EntryKind::File
                    && entries[j].rel@ == rel;
            if j < head.len() {
                assert(head[j] == entries[j]);
                assert(lists_file(head, rel));
                assert(mid.contains_key(rel));
            }
        }
    }
}

proof fn lemma_roots_merged(roots: Seq<ToolboxRoot>, terms: Terms)
    requires
        merge_roots(roots, terms) is Ok,
    ensures
        ({
            let plan = merged(merge_roots(roots, terms)->Ok_0.steps);
            &&& forall|rel: Seq<char>| #[trigger]
                plan.contains_key(rel) ==> {
                    let winner = plan[rel].root_index;
                    &&& 0 <= winner < roots.len()
                    &&& provides(roots[winner], rel)
                    &&& plan[rel] == step_for(winner, roots[winner].path@, rel, terms.bin)
                }
            &&& forall|i: int, rel: Seq<char>| #[trigger]
                root_provides(roots, i, rel) ==> plan.contains_key(rel) && i
                    <= plan[rel].root_index
        }),
    decreases roots.len(),
{
    let plan = merged(merge_roots(roots, terms)->Ok_0.steps);
    if roots.len() > 0 {
        let head = roots.drop_last();
        let last = roots.last();
        let n = roots.len() - 1;
        lemma_roots_merged(head, terms);
        let before = merge_roots(head, terms)->Ok_0;
        let mid = merged(before.steps);
        assert(merge_root(before, n, last, terms) is Ok);
        assert forall|i: int| 0 <= i < head.len() implies head[i] == roots[i] by {}
        match last.bin {
            None => {
                assert(plan == mid);
            },
            Some(entries) => {
                lemma_entries_merged(before, n, last.path@, entries@, terms);
                assert(plan == entries_plan(before, n, last.path@, entries@, terms));
            },
        }
        assert forall|rel: Seq<char>| #[trigger] plan.contains_key(rel) implies {
            let winner = plan[rel].root_index;
            &&& 0 <= winner < roots.len()
            &&& provides(roots[winner], rel)
            &&& plan[rel] == step_for(winner, roots[winner].path@, rel, terms.bin)
        } by {
            if mid.contains_key(rel) && plan[rel] == mid[rel] {
                let winner = mid[rel].root_index;
                assert(head[winner] == roots[winner]);
            } else {
                assert(last.bin is Some);
                assert(roots[n] == last);
            }
        }
        assert forall|i: int, rel: Seq<char>| #[trigger]
            root_provides(roots, i, rel) implies plan.contains_key(rel) && i
            <= plan[rel].root_index by {
            if i < n {
                assert(head[i] == roots[i]);
                assert(root_provides(head, i, rel));
                assert(mid.contains_key(rel) && i <= mid[rel].root_index);
                assert(plan.contains_key(rel));
            } else {
                assert(roots[i] == last);
            }
        }
    } else {
        assert(merge_roots(roots, terms)->Ok_0.steps.len() == 0);
    }
}

/// Last root wins. Where a resolution succeeds and root `i` has a regular
/// file at `bin/rel`, the runtime directory has a link at `rel`; the link
/// comes from a root that has that file and that stands at `i` or after it,
/// and it points at that root's file. So of all roots that provide a name,
/// the last in the caller's order is the one whose file stays.
pub proof fn lemma_last_root_wins(
    roots: Seq<ToolboxRoot>,
    settings: ResolveSettings,
    i: int,
    rel: Seq<char>,
)
    requires
        resolution(roots, settings) is Ok,
        0 <= i < roots.len(),
        provides(roots[i], rel),
    ensures
        ({
            let plan = merged(resolution(roots, settings)->Ok_0.steps);
            let winner = plan[rel].root_index;
            &&& plan.contains_key(rel)
            &&& i <= winner < roots.len()
            &&& provides(roots[winner], rel)
            &&& plan[rel] == step_for(
                winner,
                roots[winner].path@,
                rel,
                runtime_bin(settings.base@, roots),
            )
        }),
{
    lemma_roots_merged(roots, terms_of(roots, settings));
    assert(root_provides(roots, i, rel));
}

/// Only regular files are linked. Where a resolution succeeds, every link
/// of the runtime directory comes from a root that has a regular file at
/// that relative path: no symlink, no directory and nothing from outside the
/// roots is ever linked.
pub proof fn lemma_only_files_are_linked(
    roots: Seq<ToolboxRoot>,
    settings: ResolveSettings,
    rel: Seq<char>,
)
    requires
        resolution(roots, settings) is Ok,
        merged(resolution(roots, settings)->Ok_0.steps).contains_key(rel),
    ensures
        ({
            let plan = merged(resolution(roots, settings)->Ok_0.steps);
            let winner = plan[rel].root_index;
            &&& 0 <= winner < roots.len()
            &&& provides(roots[winner], rel)
        }),
{
    lemma_roots_merged(roots, terms_of(roots, settings));
}

proof fn lemma_no_fault_anywhere(root: Seq<char>, entries: Seq<WalkEntry>, j: int)
    requires
        first_fault(root, entries) is None,
        0 <= j < entries.len(),
    ensures
        entry_fault(root, entries[j]) is None,
    decreases entries.len(),
{
    if j < entries.len() - 1 {
        lemma_no_fault_anywhere(root, entries.drop_last(), j);
        assert(entries.drop_last()[j] == entries[j]);
    }
}

/// Symlinks are checked. Where a root has, anywhere below its `bin/`, a
/// symlink that resolves to a place outside the root, or one that could not
/// be resolved at all, no resolution of roots that include it succeeds.
pub proof fn lemma_escaping_symlink_fails(
    roots: Seq<ToolboxRoot>,
    settings: ResolveSettings,
    i: int,
    j: int,
)
    requires
        0 <= i < roots.len(),
        roots[i].bin is Some,
        0 <= j < roots[i].bin->0@.len(),
        roots[i].bin->0@[j].kind == EntryKind::Symlink,
        roots[i].bin->0@[j].target matches Some(target) ==> !within(target@, roots[i].path@),
    ensures
        resolution(roots, settings) is Err,
{
    lemma_roots_counts(roots, terms_of(roots, settings));
    if resolution(roots, settings) is Ok {
        assert(sound(roots[i]));
        lemma_no_fault_anywhere(roots[i].path@, roots[i].bin->0@, j);
    }
}

proof fn lemma_same_stamps(a: Seq<ToolboxRoot>, b: Seq<ToolboxRoot>)
    requires
        a.len() == b.len(),
        forall|i: int| 0 <= i < a.len() ==> stamp(#[trigger] a[i]) == stamp(b[i]),
    ensures
        stamps(a) == stamps(b),
    decreases a.len(),
{
    if a.len() > 0 {
        assert forall|i: int| 0 <= i < a.drop_last().len() implies stamp(
            #[trigger] a.drop_last()[i],
        ) == stamp(b.drop_last()[i]) by {
            assert(a.drop_last()[i] == a[i]);
            assert(b.drop_last()[i] == b[i]);
        }
        lemma_same_stamps(a.drop_last(), b.drop_last());
        assert(stamp(a[a.len() - 1]) == stamp(b[a.len() - 1]));
    }
}

/// The name of the runtime directory is a function of the roots' paths,
/// sizes and modification times: two lists of roots that agree in these, in
/// order, get the same name below the same base, whatever the roots hold.
pub proof fn lemma_same_roots_same_directory(
    a: Seq<ToolboxRoot>,
    b: Seq<ToolboxRoot>,
    base: Seq<char>,
)
    requires
        a.len() == b.len(),
        forall|i: int|
            0 <= i < a.len() ==> (#[trigger] a[i]).path@ == b[i].path@ && a[i].len == b[i].len
                && a[i].modified_ms == b[i].modified_ms,
    ensures
        digest_name(a) == digest_name(b),
        runtime_root(base, a) == runtime_root(base, b),
        runtime_bin(base, a) == runtime_bin(base, b),
{
    assert forall|i: int| 0 <= i < a.len() implies stamp(#[trigger] a[i]) == stamp(b[i]) by {
        assert(a[i].path@ == b[i].path@);
    }
    lemma_same_stamps(a, b);
}

} // verus!
