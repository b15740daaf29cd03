//! Removing a theme without losing what other themes still refer to.

use vstd::prelude::*;
use crate::config::{Config, ConfigFile, ConfigFileView, ConfigView};
use crate::plan::{plan_view, FsAction, FsActionView};
use crate::utils::{joined, theme_path};

verus! {

/// The views of a list of ledgers, in order.
pub open spec fn ledger_views(ledgers: Seq<ConfigFile>) -> Seq<ConfigFileView> {
    Seq::new(ledgers.len(), |i: int| ledgers[i]@)
}

/// Whether some config of one of the ledgers `others` keeps its content at
/// `path`.
pub open spec fn referenced_elsewhere(others: Seq<ConfigFileView>, path: Seq<char>) -> bool {
    exists|k: int| 0 <= k < others.len() && #[trigger] others[k].keeps(path)
}

/// Whether no ledger of `others` refers to the content of `entry`.
pub open spec fn is_orphan(others: Seq<ConfigFileView>, entry: ConfigView) -> bool {
    !referenced_elsewhere(others, entry.conf_location)
}

/// The steps that give the content of `entry` back to its place outside:
/// where the entry is active the link there is deleted first, then the
/// content is copied out.
pub open spec fn restore_steps(entry: ConfigView) -> Seq<FsActionView> {
    let copy = FsActionView::CopyRecursive { from: entry.conf_location, to: entry.symlink };
    if entry.active {
        seq![FsActionView::Delete { path: entry.symlink }, copy]
    } else {
        seq![copy]
    }
}

/// The steps that give back every orphan among `entries`, in order.
pub open spec fn restore_plan(entries: Seq<ConfigView>, others: Seq<ConfigFileView>) -> Seq<
    FsActionView,
>
    decreases entries.len(),
{
    if entries.len() == 0 {
        Seq::empty()
    } else {
        let rest = restore_plan(entries.drop_last(), others);
        if is_orphan(others, entries.last()) {
            rest + restore_steps(entries.last())
        } else {
            rest
        }
    }
}

/// The steps that remove the theme in `theme_dir`: give back every orphan
/// of its ledger, then delete the directory with all it contains.
pub open spec fn remove_theme_plan(
    theme_dir: Seq<char>,
    ledger: ConfigFileView,
    others: Seq<ConfigFileView>,
) -> Seq<FsActionView> {
    restore_plan(ledger.entries(), others).push(FsActionView::DeleteRecursive { path: theme_dir })
}

/// Giving back one entry more adds the steps of that entry, if it is an
/// orphan, to the end of the plan.
pub proof fn lemma_restore_plan_step(
    entries: Seq<ConfigView>,
    others: Seq<ConfigFileView>,
    n: int,
)
    requires
        0 <= n < entries.len(),
    ensures
        restore_plan(entries.take(n + 1), others) == if is_orphan(others, entries[n]) {
            restore_plan(entries.take(n), others) + restore_steps(entries[n])
        } else {
            restore_plan(entries.take(n), others)
        },
{
    assert(entries.take(n + 1).drop_last() =~= entries.take(n));
    assert(entries.take(n + 1).last() == entries[n]);
}

impl ConfigFile {
    /// Whether some config of the ledger keeps its content at `path`.
    pub fn keeps_path(&self, path: &String) -> (found: bool)
        ensures
            found == self@.keeps(path@),
    {
        let mut i: usize = 0;
        while i < self.globals.len()
            invariant
                i <= self.globals.len(),
                forall|j: int| 0 <= j < i ==> self@.globals[j].conf_location != path@,
            decreases self.globals.len() - i,
        {
            if self.globals[i].conf_location == *path {
                assert(self@.entries()[i as int].conf_location == path@);
                return true;
            }
            i += 1;
        }
        let mut k: usize = 0;
        while k < self.device_bounds.len()
            invariant
                k <= self.device_bounds.len(),
                forall|j: int|
                    0 <= j < self.globals.len() ==> self@.globals[j].conf_location != path@,
                forall|j: int| 0 <= j < k ==> self@.bound_entries()[j].conf_location != path@,
            decreases self.device_bounds.len() - k,
        {
            if self.device_bounds[k].1.conf_location == *path {
                assert(self@.entries()[self.globals.len() + k].conf_location == path@);
                return true;
            }
            k += 1;
        }
        assert forall|j: int| 0 <= j < self@.entries().len() implies #[trigger] self@.entries()[j].conf_location
            != path@ by {
            if j < self.globals.len() {
                assert(self@.entries()[j] == self@.globals[j]);
            } else {
                assert(self@.entries()[j] == self@.bound_entries()[j - self.globals.len()]);
            }
        }
        false
    }
}

/// Whether some config of one of the ledgers `others` keeps its content at
/// `path`.
pub fn is_referenced(others: &Vec<ConfigFile>, path: &String) -> (found: bool)
    ensures
        found == referenced_elsewhere(ledger_views(others@), path@),
{
    let mut k: usize = 0;
    while k < others.len()
        invariant
            k <= others.len(),
            forall|j: int| 0 <= j < k ==> !(#[trigger] ledger_views(others@)[j]).keeps(path@),
        decreases others.len() - k,
    {
        if others[k].keeps_path(path) {
            assert(ledger_views(others@)[k as int].keeps(path@));
            return true;
        }
        k += 1;
    }
    false
}

/// Adds to `plan` the steps that give back `entry`, if no ledger of
/// `others` refers to its content.
fn restore_if_orphan(plan: &mut Vec<FsAction>, entry: &Config, others: &Vec<ConfigFile>)
    ensures
        plan_view(final(plan)@) == if is_orphan(ledger_views(others@), entry@) {
            plan_view(old(plan)@) + restore_steps(entry@)
        } else {
            plan_view(old(plan)@)
        },
{
    let ghost before = plan_view(plan@);
    if !is_referenced(others, &entry.conf_location) {
        if entry.active {
            plan.push(FsAction::Delete { path: entry.symlink.clone() });
        }
        plan.push(
            FsAction::CopyRecursive {
                from: entry.conf_location.clone(),
                to: entry.symlink.clone(),
            },
        );
        assert(plan_view(plan@) =~= before + restore_steps(entry@));
    } else {
        assert(plan_view(plan@) =~= before);
    }
}

/// Plans the removal of the theme `name`.
///
/// `base_dir` is the storage root, `ledger` the config ledger of the theme
/// and `others` the config ledgers of every other theme. A config of the
/// theme whose content no other ledger refers to is an orphan: its content
/// is given back to its place outside, after the link there has been
/// deleted where the config is active. Configs that another ledger refers
/// to get no step. The last step deletes the directory of the theme with
/// all it contains: content kept inside that directory is gone afterwards,
/// also where another ledger refers to it, so that content which themes
/// share has to be kept outside the directories of the themes.
pub fn remove_theme(name: String, base_dir: &String, ledger: ConfigFile, others: Vec<ConfigFile>)
    -> (plan: Vec<FsAction>)
    ensures
        plan_view(plan@) == remove_theme_plan(
            theme_path(base_dir@, name@),
            ledger@,
            ledger_views(others@),
        ),
{
    let ghost entries = ledger@.entries();
    let ghost elsewhere = ledger_views(others@);
    let mut plan: Vec<FsAction> = Vec::new();
    let mut i: usize = 0;
    assert(plan_view(plan@) =~= restore_plan(entries.take(0), elsewhere));
    while i < ledger.globals.len()
        invariant
            i <= ledger.globals.len(),
            entries == ledger@.entries(),
            elsewhere == ledger_views(others@),
            plan_view(plan@) == restore_plan(entries.take(i as int), elsewhere),
        decreases ledger.globals.len() - i,
    {
        proof {
            lemma_restore_plan_step(entries, elsewhere, i as int);
            assert(entries[i as int] == ledger.globals[i as int]@);
        }
        restore_if_orphan(&mut plan, &ledger.globals[i], &others);
        i += 1;
    }
    let mut k: usize = 0;
    while k < ledger.device_bounds.len()
        invariant
            k <= ledger.device_bounds.len(),
            entries == ledger@.entries(),
            elsewhere == ledger_views(others@),
            plan_view(plan@) == restore_plan(
                entries.take(ledger.globals.len() + k),
                elsewhere,
            ),
        decreases ledger.device_bounds.len() - k,
    {
        proof {
            lemma_restore_plan_step(entries, elsewhere, ledger.globals.len() + k);
            assert(entries[ledger.globals.len() + k] == ledger.device_bounds[k as int].1@);
        }
        restore_if_orphan(&mut plan, &ledger.device_bounds[k].1, &others);
        k += 1;
    }
    assert(entries.take(entries.len() as int) =~= entries);
    let ghost restored = plan_view(plan@);
    plan.push(FsAction::DeleteRecursive { path: joined(base_dir, name.as_str()) });
    assert(plan_view(plan@) =~= restored.push(
        FsActionView::DeleteRecursive { path: theme_path(base_dir@, name@) },
    ));
    plan
}

} // verus!
