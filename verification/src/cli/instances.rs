use crate::config::{full_import, Config, InstanceConfig, TeleporterImportOptions};
use vstd::prelude::*;

verus! {

/// The commands that manage the configured instances.
#[derive(Debug)]
pub enum Instances {
    /// List all configured instances.
    List,
    /// Add a secondary.
    Add { host: String, schema: String, port: u16, api_key: String, update_gravity: bool },
    /// Remove the secondaries of this host.
    Remove { host: String },
}

/// What a command has done to the configuration.
#[derive(Debug, Clone, Copy, PartialEq, Eq)]
pub enum InstancesOutcome {
    /// Nothing: the instances are to be listed.
    Listed,
    /// A secondary was added: the configuration is to be saved.
    Added,
    /// Secondaries were removed: the configuration is to be saved.
    Removed,
    /// No secondary has the host: the configuration is as it was.
    NotFound,
}

/// The secondary that `Add` appends: synchronised by snapshot, of which it
/// imports everything.
pub open spec fn added_instance(
    host: String,
    schema: String,
    port: u16,
    api_key: String,
    update_gravity: bool,
) -> InstanceConfig {
    InstanceConfig {
        host,
        schema,
        port,
        api_key,
        update_gravity: Some(update_gravity),
        sync_mode: None,
        api_sync_options: None,
        teleporter_sync_options: Some(full_import()),
    }
}

/// The secondaries that are not at `host`, in their order.
pub open spec fn without_host(instances: Seq<InstanceConfig>, host: Seq<char>) -> Seq<
    InstanceConfig,
>
    decreases instances.len(),
{
    if instances.len() == 0 {
        Seq::empty()
    } else if instances.last().host@ == host {
        without_host(instances.drop_last(), host)
    } else {
        without_host(instances.drop_last(), host).push(instances.last())
    }
}

pub proof fn lemma_without_host_len(instances: Seq<InstanceConfig>, host: Seq<char>)
    ensures
        without_host(instances, host).len() <= instances.len(),
        without_host(instances, host).len() == instances.len() <==> forall|i: int|
            0 <= i < instances.len() ==> (#[trigger] instances[i]).host@ != host,
    decreases instances.len(),
{
    if instances.len() > 0 {
        lemma_without_host_len(instances.drop_last(), host);
        if without_host(instances, host).len() == instances.len() {
            assert forall|i: int| 0 <= i < instances.len() implies (#[trigger] instances[i]).host@
                != host by {
                if i < instances.len() - 1 {
                    assert(instances.drop_last()[i] == instances[i]);
                }
            }
        } else if forall|i: int| 0 <= i < instances.len() ==> (#[trigger] instances[i]).host@ != host {
            assert forall|i: int| 0 <= i < instances.drop_last().len() implies (
            #[trigger] instances.drop_last()[i]).host@ != host by {
                assert(instances.drop_last()[i] == instances[i]);
            }
            assert(instances[instances.len() - 1].host@ != host);
        }
    }
}

/// Carries out a command on the configuration and tells what was done. The
/// main instance and the timing are never touched.
pub fn run_instances_cmd(instances_cmd: Instances, config: &mut Config) -> (outcome:
    InstancesOutcome)
    ensures
        final(config).sync == old(config).sync,
        final(config).main == old(config).main,
        match instances_cmd {
            Instances::List => outcome == InstancesOutcome::Listed && final(config).secondary@
                == old(config).secondary@,
            Instances::Add { host, schema, port, api_key, update_gravity } => outcome
                == InstancesOutcome::Added && final(config).secondary@ == old(
                config,
            ).secondary@.push(added_instance(host, schema, port, api_key, update_gravity)),
            Instances::Remove { host } => final(config).secondary@ == without_host(
                old(config).secondary@,
                host@,
            ) && outcome == if final(config).secondary@.len() < old(config).secondary@.len() {
                InstancesOutcome::Removed
            } else {
                InstancesOutcome::NotFound
            },
        },
{
    match instances_cmd {
        Instances::List => InstancesOutcome::Listed,
        Instances::Add { host, schema, port, api_key, update_gravity } => {
            config.secondary.push(
                InstanceConfig {
                    host,
                    schema,
                    port,
                    api_key,
                    update_gravity: Some(update_gravity),
                    sync_mode: None,
                    api_sync_options: None,
                    teleporter_sync_options: Some(TeleporterImportOptions::default()),
                },
            );
            InstancesOutcome::Added
        },
        Instances::Remove { host } => {
            let ghost given = config.secondary@;
            let before = config.secondary.len();
            let mut kept: Vec<InstanceConfig> = Vec::new();
            proof {
                assert(given.take(0) =~= Seq::<InstanceConfig>::empty());
            }
            while config.secondary.len() > 0
                invariant
                    config.sync == old(config).sync,
                    config.main == old(config).main,
                    given == old(config).secondary@,
                    before == given.len(),
                    config.secondary@.len() <= given.len(),
                    config.secondary@ == given.skip(given.len() - config.secondary@.len()),
                    kept@ == without_host(given.take(given.len() - config.secondary@.len()), host@),
                decreases config.secondary.len(),
            {
                let ghost k = given.len() - config.secondary@.len();
                let instance = config.secondary.remove(0);
                proof {
                    assert(instance == given[k]);
                    assert(given.take(k + 1).drop_last() =~= given.take(k));
                    assert(given.take(k + 1).last() == given[k]);
                    assert(config.secondary@ =~= given.skip(k + 1));
                }
                if !(instance.host == host) {
                    kept.push(instance);
                }
            }
            proof {
                assert(given.take(given.len() as int) =~= given);
                lemma_without_host_len(given, host@);
            }
            let removed = kept.len() < before;
            config.secondary = kept;
            if removed {
                InstancesOutcome::Removed
            } else {
                InstancesOutcome::NotFound
            }
        },
    }
}

} // verus!
