//! Listing the configs of a theme, all of them or those of one device.

use vstd::prelude::*;
use crate::config::{bound_config_views, config_views, Config, ConfigFile, ConfigFileView, ConfigView};
use crate::utils::optional_text;

verus! {

/// The test that a bound config is bound to `device`.
pub open spec fn on_device(device: Seq<char>) -> spec_fn((Seq<char>, ConfigView)) -> bool {
    |b: (Seq<char>, ConfigView)| b.0 == device
}

/// The configs of a list of bound configs, in order, without their devices.
pub open spec fn unbound(bounds: Seq<(Seq<char>, ConfigView)>) -> Seq<ConfigView> {
    Seq::new(bounds.len(), |i: int| bounds[i].1)
}

impl ConfigFileView {
    /// The configs bound to `device`, in order.
    pub open spec fn bound_to(self, device: Seq<char>) -> Seq<ConfigView> {
        unbound(self.device_bounds.filter(on_device(device)))
    }

    /// What a listing shows: with a device the configs bound to it, without
    /// one every config of the ledger, whatever device it is bound to.
    pub open spec fn listed(self, device: Option<Seq<char>>) -> Seq<ConfigView> {
        match device {
            Some(d) => self.bound_to(d),
            None => self.entries(),
        }
    }
}

/// The configs of `bounds` that are bound to `device`, in order.
pub fn bound_to_device(bounds: Vec<(String, Config)>, device: &String) -> (found: Vec<Config>)
    ensures
        config_views(found@) == unbound(bound_config_views(bounds@).filter(on_device(device@))),
{
    let ghost all = bound_config_views(bounds@);
    let ghost test = on_device(device@);
    let mut found: Vec<Config> = Vec::new();
    assert(all.take(0).filter(test) =~= Seq::empty()) by {
        reveal(Seq::filter);
    }
    assert(config_views(found@) =~= unbound(all.take(0).filter(test)));
    for bound in it: bounds
        invariant
            it.seq() == bounds@,
            all == bound_config_views(bounds@),
            test == on_device(device@),
            config_views(found@) == unbound(all.take(it.index() as int).filter(test)),
    {
        let ghost n = it.index() as int;
        proof {
            assert(all.take(n + 1) =~= all.take(n).push(all[n]));
            all.take(n).lemma_filter_push(all[n], test);
            assert(all[n] == (bound.0@, bound.1@));
        }
        let ghost before = config_views(found@);
        if bound.0 == *device {
            found.push(bound.1);
            assert(config_views(found@) =~= before.push(bound.1@));
            assert(config_views(found@) =~= unbound(all.take(n + 1).filter(test)));
        }
    }
    assert(all.take(all.len() as int) =~= all);
    found
}

/// Adds every config of `bounds`, in order, to the end of `configs`.
pub fn append_unbound(configs: &mut Vec<Config>, bounds: Vec<(String, Config)>)
    ensures
        config_views(final(configs)@) == config_views(old(configs)@) + unbound(
            bound_config_views(bounds@),
        ),
{
    let ghost start = config_views(configs@);
    let ghost all = unbound(bound_config_views(bounds@));
    assert(config_views(configs@) =~= start + all.take(0));
    for bound in it: bounds
        invariant
            it.seq() == bounds@,
            all == unbound(bound_config_views(bounds@)),
            config_views(configs@) == start + all.take(it.index() as int),
    {
        let ghost n = it.index() as int;
        let ghost before = config_views(configs@);
        configs.push(bound.1);
        assert(config_views(configs@) =~= before.push(bound.1@));
        assert(all[n] == bound.1@);
        assert(config_views(configs@) =~= start + all.take(n + 1));
    }
    assert(all.take(all.len() as int) =~= all);
}

/// Lists the configs of a ledger.
///
/// With a device, only the configs bound to that device are listed. Without
/// one, the listing holds the global configs and then the configs of every
/// device.
pub fn list_configs(ledger: ConfigFile, device: Option<String>) -> (configs: Vec<Config>)
    ensures
        config_views(configs@) == ledger@.listed(
            optional_text(device),
        ),
{
    match device {
        Some(d) => bound_to_device(ledger.device_bounds, &d),
        None => {
            let mut configs = ledger.globals;
            append_unbound(&mut configs, ledger.device_bounds);
            assert(unbound(ledger@.device_bounds) =~= ledger@.bound_entries());
            configs
        },
    }
}

} // verus!
