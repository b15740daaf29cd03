//! What the steps planned for themes do to the filesystem, once they have
//! been carried out.

use vstd::prelude::*;
use crate::config::{ConfigFileView, ConfigView};
use crate::plan::FsActionView;
use crate::storage::{
    after,
    after_all,
    lemma_after_all_joined,
    lemma_untouched_by_all,
    same_at,
    touches,
    within,
    Node,
};
use crate::config::config_views;
use crate::theme::apply::{
    copy_out,
    planned_step,
    progress_after,
    refused,
    Activation,
    ActivationProgress,
    ActivationStepView,
    SlotState,
};
use crate::theme::create::create_theme_plan;
use crate::theme::delete::{is_orphan, remove_theme_plan, restore_plan, restore_steps};
use crate::theme::list::{entry_names, is_directory, theme_names};
use crate::utils::theme_path;

verus! {

/// Whether `name` can be the name of an entry of a directory: it is not
/// empty and holds no separator.
pub open spec fn is_component(name: Seq<char>) -> bool {
    name.len() > 0 && !name.contains('/')
}

/// Whether `entries` lists the directory `dir` of the filesystem: no name
/// comes twice, every entry is found below `dir` and is marked as a
/// directory exactly if it is one, and everything found directly below
/// `dir` has its entry.
pub open spec fn is_listing(
    entries: Seq<(Seq<char>, bool)>,
    fs: Map<Seq<char>, Node>,
    dir: Seq<char>,
) -> bool {
    &&& entry_names(entries).no_duplicates()
    &&& forall|i: int|
        0 <= i < entries.len() ==> fs.contains_key(dir + (#[trigger] entries[i]).0) && entries[i].1
            == (fs[dir + entries[i].0] is Directory)
    &&& forall|n: Seq<char>|
        is_component(n) && #[trigger] fs.contains_key(dir + n) ==> entry_names(entries).contains(n)
}

/// Among entries with different names, those that pass a filter have
/// different names too.
proof fn lemma_filter_keeps_names_apart(
    entries: Seq<(Seq<char>, bool)>,
    test: spec_fn((Seq<char>, bool)) -> bool,
)
    requires
        entry_names(entries).no_duplicates(),
    ensures
        entry_names(entries.filter(test)).no_duplicates(),
        forall|i: int|
            0 <= i < entries.filter(test).len() ==> entries.contains(
                #[trigger] entries.filter(test)[i],
            ),
    decreases entries.len(),
{
    reveal(Seq::filter);
    if entries.len() > 0 {
        let front = entries.drop_last();
        assert forall|i: int, j: int|
            0 <= i < front.len() && 0 <= j < front.len() && i != j implies entry_names(front)[i]
            != entry_names(front)[j] by {
            assert(entry_names(front)[i] == entry_names(entries)[i]);
            assert(entry_names(front)[j] == entry_names(entries)[j]);
        }
        lemma_filter_keeps_names_apart(front, test);
        let kept = front.filter(test);
        let all = entries.filter(test);
        assert forall|i: int| 0 <= i < all.len() implies entries.contains(#[trigger] all[i]) by {
            if i < kept.len() {
                assert(front.contains(kept[i]));
                let k = choose|k: int| 0 <= k < front.len() && front[k] == kept[i];
                assert(entries[k] == kept[i]);
            } else {
                assert(all[i] == entries[entries.len() - 1]);
            }
        }
        if test(entries.last()) {
            assert forall|i: int, j: int|
                0 <= i < all.len() && 0 <= j < all.len() && i != j implies entry_names(all)[i]
                != entry_names(all)[j] by {
                let last = entries.len() - 1;
                if i < kept.len() && j < kept.len() {
                    assert(entry_names(kept)[i] != entry_names(kept)[j]);
                } else if i < kept.len() {
                    assert(front.contains(kept[i]));
                    let k = choose|k: int| 0 <= k < front.len() && front[k] == kept[i];
                    assert(entry_names(entries)[k] != entry_names(entries)[last]);
                } else {
                    assert(front.contains(kept[j]));
                    let k = choose|k: int| 0 <= k < front.len() && front[k] == kept[j];
                    assert(entry_names(entries)[k] != entry_names(entries)[last]);
                }
            }
        }
    }
}

/// After a theme has been created, a listing of the storage root names it
/// exactly once among the themes.
///
/// `base`, where given, names a theme: what is found at its path, if
/// anything, is a directory.
pub proof fn lemma_created_is_listed(
    fs: Map<Seq<char>, Node>,
    base_dir: Seq<char>,
    name: Seq<char>,
    base: Option<Seq<char>>,
    entries: Seq<(Seq<char>, bool)>,
)
    requires
        is_component(name),
        base matches Some(b) ==> (fs.contains_key(theme_path(base_dir, b)) ==> fs[theme_path(
            base_dir,
            b,
        )] is Directory),
        is_listing(entries, after_all(fs, create_theme_plan(base_dir, name, base)), base_dir),
    ensures
        theme_names(entries).contains(name),
        theme_names(entries).no_duplicates(),
{
    let theme_dir = theme_path(base_dir, name);
    let plan = create_theme_plan(base_dir, name, base);
    let then = after_all(fs, plan);
    let made = after(fs, plan[0]);
    assert(after_all(fs, seq![plan[0]]) == made) by {
        assert(seq![plan[0]].drop_last() =~= Seq::<FsActionView>::empty());
        assert(after_all(fs, Seq::<FsActionView>::empty()) == fs);
    }
    let rest = plan.skip(1);
    assert(plan =~= seq![plan[0]] + rest);
    lemma_after_all_joined(fs, seq![plan[0]], rest);
    assert(made.contains_key(theme_dir) && made[theme_dir] is Directory);
    match base {
        Some(b) => {
            assert(rest.drop_last() =~= Seq::<FsActionView>::empty());
            assert(after_all(made, Seq::<FsActionView>::empty()) == made);
            assert(then == after(made, rest[0]));
            let from = theme_path(base_dir, b);
            assert(theme_dir.skip(theme_dir.len() as int) =~= Seq::<char>::empty());
            assert(from + Seq::<char>::empty() =~= from);
        },
        None => {
            reveal_strlit("/dependencies.toml");
            reveal_strlit("/configs.toml");
            assert forall|i: int| 0 <= i < rest.len() implies !touches(
                #[trigger] rest[i],
                theme_dir,
            ) by {}
            lemma_untouched_by_all(made, rest, theme_dir);
        },
    }
    assert(then.contains_key(theme_dir) && then[theme_dir] is Directory);
    assert(entry_names(entries).contains(name));
    let i = choose|i: int| 0 <= i < entries.len() && entry_names(entries)[i] == name;
    assert(entries[i].0 == name);
    assert(entries[i].1);
    entries.lemma_filter_contains(is_directory(), i);
    let kept = entries.filter(is_directory());
    let k = choose|k: int| 0 <= k < kept.len() && kept[k] == entries[i];
    assert(entry_names(kept)[k] == name);
    lemma_filter_keeps_names_apart(entries, is_directory());
}

/// The steps that give orphans back touch nothing but the trees at the
/// places outside of those orphans.
pub proof fn lemma_restore_touches(
    entries: Seq<ConfigView>,
    others: Seq<ConfigFileView>,
    path: Seq<char>,
)
    requires
        forall|k: int|
            0 <= k < entries.len() && is_orphan(others, #[trigger] entries[k]) ==> !within(
                entries[k].symlink,
                path,
            ),
    ensures
        forall|i: int|
            0 <= i < restore_plan(entries, others).len() ==> !touches(
                #[trigger] restore_plan(entries, others)[i],
                path,
            ),
    decreases entries.len(),
{
    if entries.len() > 0 {
        let front = entries.drop_last();
        assert forall|k: int| 0 <= k < front.len() && is_orphan(others, #[trigger] front[k])
            implies !within(front[k].symlink, path) by {
            assert(front[k] == entries[k]);
        }
        lemma_restore_touches(front, others, path);
        let last = entries.last();
        assert(last == entries[entries.len() - 1]);
        if is_orphan(others, last) {
            assert(!within(last.symlink, path));
            assert(within(last.symlink, last.symlink)) by {
                assert(last.symlink.take(last.symlink.len() as int) =~= last.symlink);
            }
            let steps = restore_steps(last);
            let plan = restore_plan(entries, others);
            let before = restore_plan(front, others);
            assert(plan == before + steps);
            assert forall|i: int| 0 <= i < plan.len() implies !touches(#[trigger] plan[i], path) by {
                if i < before.len() {
                    assert(plan[i] == before[i]);
                } else {
                    assert(plan[i] == steps[i - before.len()]);
                }
            }
        } else {
            assert(restore_plan(entries, others) == restore_plan(front, others));
        }
    } else {
        assert(restore_plan(entries, others).len() == 0);
    }
}

/// Removing a theme leaves alone whatever lies outside its directory and
/// outside the places to which orphans are given back: in particular the
/// content that another theme refers to, if it is kept there.
pub proof fn lemma_remove_theme_keeps(
    fs: Map<Seq<char>, Node>,
    theme_dir: Seq<char>,
    ledger: ConfigFileView,
    others: Seq<ConfigFileView>,
    path: Seq<char>,
)
    requires
        !within(theme_dir, path),
        forall|k: int|
            0 <= k < ledger.entries().len() && is_orphan(others, #[trigger] ledger.entries()[k])
                ==> !within(ledger.entries()[k].symlink, path),
    ensures
        same_at(after_all(fs, remove_theme_plan(theme_dir, ledger, others)), fs, path),
{
    let plan = remove_theme_plan(theme_dir, ledger, others);
    let restore = restore_plan(ledger.entries(), others);
    lemma_restore_touches(ledger.entries(), others, path);
    assert forall|i: int| 0 <= i < plan.len() implies !touches(#[trigger] plan[i], path) by {
        if i < restore.len() {
            assert(plan[i] == restore[i]);
        }
    }
    lemma_untouched_by_all(fs, plan, path);
}

/// A config whose content another ledger refers to gets no step: where
/// every config of the removed theme is referred to elsewhere, the plan
/// holds nothing but the deletion of the theme's directory.
pub proof fn lemma_referenced_get_no_step(
    theme_dir: Seq<char>,
    ledger: ConfigFileView,
    others: Seq<ConfigFileView>,
)
    requires
        forall|k: int|
            0 <= k < ledger.entries().len() ==> !is_orphan(others, #[trigger] ledger.entries()[k]),
    ensures
        remove_theme_plan(theme_dir, ledger, others) == seq![
            FsActionView::DeleteRecursive { path: theme_dir },
        ],
{
    lemma_no_orphans(ledger.entries(), others);
    assert(Seq::<FsActionView>::empty().push(FsActionView::DeleteRecursive { path: theme_dir })
        =~= seq![FsActionView::DeleteRecursive { path: theme_dir }]);
}

/// Without orphans nothing is given back.
proof fn lemma_no_orphans(entries: Seq<ConfigView>, others: Seq<ConfigFileView>)
    requires
        forall|k: int| 0 <= k < entries.len() ==> !is_orphan(others, #[trigger] entries[k]),
    ensures
        restore_plan(entries, others) == Seq::<FsActionView>::empty(),
    decreases entries.len(),
{
    if entries.len() > 0 {
        assert forall|k: int| 0 <= k < entries.drop_last().len() implies !is_orphan(
            others,
            #[trigger] entries.drop_last()[k],
        ) by {
            assert(entries.drop_last()[k] == entries[k]);
        }
        lemma_no_orphans(entries.drop_last(), others);
        assert(entries.last() == entries[entries.len() - 1]);
    }
}

/// Applying a config fills its place outside with what the theme keeps for
/// it, over whatever was there.
pub proof fn lemma_applied_fills_place(fs: Map<Seq<char>, Node>, entry: ConfigView)
    requires
        fs.contains_key(entry.conf_location),
    ensures
        after(fs, copy_out(entry)).contains_key(entry.symlink),
        after(fs, copy_out(entry))[entry.symlink] == fs[entry.conf_location],
{
    let to = entry.symlink;
    assert(to.take(to.len() as int) =~= to);
    assert(entry.conf_location + to.skip(to.len() as int) =~= entry.conf_location);
}

/// The steps that have been taken when a theme is put to use and the looks
/// at the configs find `slots`, one after the other: the configs are
/// applied in order up to the first one that is refused.
pub open spec fn steps_taken(entries: Seq<ConfigView>, force: bool, slots: Seq<SlotState>) -> Seq<
    FsActionView,
>
    decreases entries.len(),
{
    if entries.len() == 0 || slots.len() == 0 || refused(force, slots[0]) {
        Seq::empty()
    } else {
        seq![copy_out(entries[0])] + steps_taken(entries.drop_first(), force, slots.drop_first())
    }
}

/// Whether putting a theme to use comes to its end, with no config
/// refused, when the looks at the configs find `slots`.
pub open spec fn all_applied(entries: Seq<ConfigView>, force: bool, slots: Seq<SlotState>) -> bool {
    forall|k: int| 0 <= k < entries.len() ==> !refused(force, #[trigger] slots[k])
}

/// The steps that apply every config of `entries`, in order.
pub open spec fn all_copies(entries: Seq<ConfigView>) -> Seq<FsActionView> {
    Seq::new(entries.len(), |i: int| copy_out(entries[i]))
}

/// Where the first config of a theme is refused, no step has been taken
/// when the work ends.
pub proof fn lemma_first_refused_takes_no_step(
    entries: Seq<ConfigView>,
    force: bool,
    slots: Seq<SlotState>,
)
    requires
        slots.len() == entries.len(),
        entries.len() > 0,
        !force,
        !(slots[0] is Free),
    ensures
        steps_taken(entries, force, slots) == Seq::<FsActionView>::empty(),
        !all_applied(entries, force, slots),
{
}

/// The configs before the first refused one are applied, and no other.
pub proof fn lemma_steps_stop_at_refusal(
    entries: Seq<ConfigView>,
    force: bool,
    slots: Seq<SlotState>,
    k: int,
)
    requires
        slots.len() == entries.len(),
        0 <= k < entries.len(),
        refused(force, slots[k]),
        forall|j: int| 0 <= j < k ==> !refused(force, #[trigger] slots[j]),
    ensures
        steps_taken(entries, force, slots) == all_copies(entries.take(k)),
    decreases entries.len(),
{
    if k == 0 {
        assert(all_copies(entries.take(0)) =~= Seq::<FsActionView>::empty());
    } else {
        assert(!refused(force, slots[0]));
        assert forall|j: int| 0 <= j < k - 1 implies !refused(
            force,
            #[trigger] slots.drop_first()[j],
        ) by {
            assert(slots.drop_first()[j] == slots[j + 1]);
        }
        lemma_steps_stop_at_refusal(entries.drop_first(), force, slots.drop_first(), k - 1);
        assert(all_copies(entries.take(k)) =~= seq![copy_out(entries[0])] + all_copies(
            entries.drop_first().take(k - 1),
        ));
    }
}

/// With `force` no config is refused, whatever the looks find: every
/// config is applied, over what is at its place.
pub proof fn lemma_force_applies_all(entries: Seq<ConfigView>, slots: Seq<SlotState>)
    requires
        slots.len() == entries.len(),
    ensures
        all_applied(entries, true, slots),
        steps_taken(entries, true, slots) == all_copies(entries),
    decreases entries.len(),
{
    if entries.len() > 0 {
        lemma_force_applies_all(entries.drop_first(), slots.drop_first());
        assert(all_copies(entries) =~= seq![copy_out(entries[0])] + all_copies(
            entries.drop_first(),
        ));
    } else {
        assert(all_copies(entries) =~= Seq::<FsActionView>::empty());
    }
}

/// The steps that a run of an activation takes from the config at `done`
/// on, when the look at the place of each config finds what `slots` says
/// for it and every step goes well: the run follows `planned_step`, one
/// config further after each step, until a config is refused or none is
/// left.
pub open spec fn run_from(activation: Activation, slots: Seq<SlotState>, done: int) -> Seq<
    FsActionView,
>
    decreases activation.entries@.len() - done,
{
    if 0 <= done < activation.entries@.len() && done < slots.len() {
        let progress = ActivationProgress::Applied(done as usize);
        match planned_step(activation, progress, slots[done], Seq::empty(), false) {
            ActivationStepView::Apply(step) => seq![step] + run_from(activation, slots, done + 1),
            _ => Seq::empty(),
        }
    } else {
        Seq::empty()
    }
}

/// A step that goes well brings the work one config further.
pub proof fn lemma_step_moves_on(activation: Activation, done: usize, step: FsActionView)
    requires
        done < activation.entries@.len(),
    ensures
        progress_after(activation, ActivationProgress::Applied(done), step, None)
            == ActivationProgress::Applied((done + 1) as usize),
        done + 1 <= usize::MAX,
{
    assert(activation.entries@.len() == activation.entries.len());
}

/// A run takes the steps of `steps_taken`, and no other: the configs are
/// applied in order up to the first one that is refused.
pub proof fn lemma_run_takes_steps(activation: Activation, slots: Seq<SlotState>, done: int)
    requires
        slots.len() == activation.entries@.len(),
        0 <= done <= activation.entries@.len(),
    ensures
        run_from(activation, slots, done) == steps_taken(
            config_views(activation.entries@).skip(done),
            activation.force,
            slots.skip(done),
        ),
    decreases activation.entries@.len() - done,
{
    let entries = config_views(activation.entries@).skip(done);
    let found = slots.skip(done);
    assert(activation.entries@.len() == activation.entries.len());
    if done < activation.entries@.len() {
        assert(found[0] == slots[done]);
        assert(entries[0] == activation.entries@[done]@);
        if !refused(activation.force, slots[done]) {
            lemma_run_takes_steps(activation, slots, done + 1);
            assert(entries.drop_first() =~= config_views(activation.entries@).skip(done + 1));
            assert(found.drop_first() =~= slots.skip(done + 1));
        }
    }
}

/// The theme is made the one in use only when every config has been
/// applied: after a refusal or a failed step the pointer is not written.
pub proof fn lemma_pointer_is_written_last(
    activation: Activation,
    progress: ActivationProgress,
    found: SlotState,
    base_dir: Seq<char>,
    pointer_exists: bool,
)
    ensures
        planned_step(activation, progress, found, base_dir, pointer_exists) is Finish <==> (
        progress matches ActivationProgress::Applied(done) && done >= activation.entries@.len()),
        progress is Failed ==> planned_step(activation, progress, found, base_dir, pointer_exists)
            == ActivationStepView::Stop(progress->Failed_0),
{
}

/// A step that fails ends the work: whatever is found afterwards, nothing
/// more is asked for, and the failure is that of the step.
pub proof fn lemma_failed_step_ends_the_work(
    activation: Activation,
    done: usize,
    step: FsActionView,
    reason: String,
    found: SlotState,
    base_dir: Seq<char>,
    pointer_exists: bool,
)
    requires
        done < activation.entries@.len(),
    ensures
        planned_step(
            activation,
            progress_after(activation, ActivationProgress::Applied(done), step, Some(reason)),
            found,
            base_dir,
            pointer_exists,
        ) == ActivationStepView::Stop(step.failure(reason)),
{
}

/// Removing a theme leaves nothing in its directory: a path inside it is
/// gone once the plan has been carried out, also where the ledger of
/// another theme refers to it. Content that themes share is safe only if
/// it is kept outside the directories of the themes.
pub proof fn lemma_removed_directory_is_gone(
    fs: Map<Seq<char>, Node>,
    theme_dir: Seq<char>,
    ledger: ConfigFileView,
    others: Seq<ConfigFileView>,
    path: Seq<char>,
)
    requires
        within(theme_dir, path),
    ensures
        !after_all(fs, remove_theme_plan(theme_dir, ledger, others)).contains_key(path),
{
    let plan = remove_theme_plan(theme_dir, ledger, others);
    assert(plan.drop_last() =~= restore_plan(ledger.entries(), others));
    assert(plan.last() == FsActionView::DeleteRecursive { path: theme_dir });
}

} // verus!
