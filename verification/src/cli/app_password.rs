use crate::config::{Config, InstanceConfig};
use vstd::prelude::*;

verus! {

/// The hosts of the instances of a configuration: main first, then the
/// secondaries in their order.
pub open spec fn instance_hosts(config: Config) -> Seq<Seq<char>> {
    seq![config.main.host@] + config.secondary@.map_values(|i: InstanceConfig| i.host@)
}

/// The texts of a list of strings.
pub open spec fn host_texts(hosts: Seq<String>) -> Seq<Seq<char>> {
    hosts.map_values(|s: String| s@)
}

/// The hosts among which the user chooses the instance that an app password
/// is acquired for.
pub fn acquire_app_password(config: &Config) -> (hosts: Vec<String>)
    ensures
        host_texts(hosts@) == instance_hosts(*config),
{
    let mut hosts: Vec<String> = Vec::new();
    hosts.push(config.main.host.clone());
    let mut i: usize = 0;
    while i < config.secondary.len()
        invariant
            i <= config.secondary.len(),
            hosts@.len() == i + 1,
            hosts@[0]@ == config.main.host@,
            forall|j: int| 1 <= j <= i ==> (#[trigger] hosts@[j])@ == config.secondary@[j - 1].host@,
        decreases config.secondary.len() - i,
    {
        hosts.push(config.secondary[i].host.clone());
        i += 1;
    }
    let ghost wanted = instance_hosts(*config);
    assert(wanted.len() == hosts@.len());
    assert forall|j: int| 0 <= j < hosts@.len() implies host_texts(hosts@)[j] == wanted[j] by {
        if j > 0 {
            assert(wanted[j] == config.secondary@.map_values(|i: InstanceConfig| i.host@)[j - 1]);
        }
    }
    assert(host_texts(hosts@) =~= wanted);
    hosts
}

/// The instance at a position of that list.
pub fn chosen_instance(config: &Config, selection: usize) -> (instance: Option<&InstanceConfig>)
    ensures
        instance == if selection == 0 {
            Some(&config.main)
        } else if selection - 1 < config.secondary@.len() {
            Some(&config.secondary@[selection - 1])
        } else {
            None
        },
{
    if selection == 0 {
        Some(&config.main)
    } else if selection - 1 < config.secondary.len() {
        Some(&config.secondary[selection - 1])
    } else {
        None
    }
}

} // verus!
