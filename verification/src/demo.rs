//! The browser demonstration: its configuration, its greeting, and the ten
//! founders it starts from.

use vstd::prelude::*;
use crate::capsule::scp_prefix;
use crate::types::Role;

verus! {

/// Configuration for the demonstration world.
#[derive(Debug, Clone, Copy, PartialEq, Eq, Structural)]
pub struct WorldConfig {
    pub seed: u64,
    pub ticks: u32,
    pub commit_attestations: u32,
    pub n_patches: usize,
}

impl Default for WorldConfig {
    /// Seed 42, 1000 ticks, two attestations to settle a claim, ten patches.
    fn default() -> (r: WorldConfig)
        ensures
            r == (WorldConfig { seed: 42, ticks: 1000, commit_attestations: 2, n_patches: 10 }),
    {
        WorldConfig { seed: 42, ticks: 1000, commit_attestations: 2, n_patches: 10 }
    }
}

/// The demonstration's greeting.
pub open spec fn greeting() -> Seq<char> {
    "🧬 Replicant WASM is running!"@
}

/// The greeting shown when the demonstration starts.
pub fn greet() -> (s: String)
    ensures
        s@ == greeting(),
{
    String::from_str("🧬 Replicant WASM is running!")
}

/// The founders' names, in order.
pub open spec fn founder_names() -> Seq<Seq<char>> {
    seq![
        "Sagan"@,
        "Dyson"@,
        "Lovelace"@,
        "Turing"@,
        "Curie"@,
        "Newton"@,
        "Tesla"@,
        "Pasteur"@,
        "Shannon"@,
        "Darwin"@,
    ]
}

/// The founders' roles, in the order of their names.
pub open spec fn founder_roles() -> Seq<Role> {
    seq![
        Role::Founder,
        Role::Scout,
        Role::Builder,
        Role::Attester,
        Role::Forager,
        Role::Broadcaster,
        Role::Explorer,
        Role::Healer,
        Role::Signal,
        Role::Observer,
    ]
}

/// A founder of the demonstration swarm.
#[derive(Debug)]
pub struct Founder {
    pub name: String,
    pub scp_id: String,
    pub role: Role,
}

/// The founders: founder `i` has the `i`-th name and role, and the identifier
/// `replicant/agent/<name>`.
pub fn founder_roster() -> (r: Vec<Founder>)
    ensures
        r@.len() == 10,
        forall|i: int|
            0 <= i < 10 ==> {
                &&& (#[trigger] r@[i]).name@ == founder_names()[i]
                &&& r@[i].scp_id@ == scp_prefix() + founder_names()[i]
                &&& r@[i].role == founder_roles()[i]
            },
{
    let names = vec![
        "Sagan",
        "Dyson",
        "Lovelace",
        "Turing",
        "Curie",
        "Newton",
        "Tesla",
        "Pasteur",
        "Shannon",
        "Darwin",
    ];
    let roles = vec![
        Role::Founder,
        Role::Scout,
        Role::Builder,
        Role::Attester,
        Role::Forager,
        Role::Broadcaster,
        Role::Explorer,
        Role::Healer,
        Role::Signal,
        Role::Observer,
    ];
    assert(names@.map_values(|s: &str| s@) =~= founder_names());
    assert(roles@ =~= founder_roles());
    let mut founders: Vec<Founder> = Vec::new();
    let mut i: usize = 0;
    while i < names.len()
        invariant
            names@.len() == 10,
            roles@ == founder_roles(),
            names@.map_values(|s: &str| s@) == founder_names(),
            0 <= i <= 10,
            founders@.len() == i,
            forall|j: int|
                0 <= j < i ==> {
                    &&& (#[trigger] founders@[j]).name@ == founder_names()[j]
                    &&& founders@[j].scp_id@ == scp_prefix() + founder_names()[j]
                    &&& founders@[j].role == founder_roles()[j]
                },
        decreases names.len() - i,
    {
        let name = names[i];
        assert(name@ == founder_names()[i as int]);
        let mut scp_id = String::from_str("replicant/agent/");
        scp_id.append(name);
        founders.push(Founder { name: String::from_str(name), scp_id, role: roles[i] });
        i = i + 1;
    }
    founders
}

/// The founders' names, hence their identifiers, are pairwise distinct.
pub proof fn lemma_founders_distinct(i: int, j: int)
    requires
        0 <= i < 10,
        0 <= j < 10,
        i != j,
    ensures
        founder_names()[i] != founder_names()[j],
        scp_prefix() + founder_names()[i] != scp_prefix() + founder_names()[j],
{
    reveal_strlit("Sagan");
    reveal_strlit("Dyson");
    reveal_strlit("Lovelace");
    reveal_strlit("Turing");
    reveal_strlit("Curie");
    reveal_strlit("Newton");
    reveal_strlit("Tesla");
    reveal_strlit("Pasteur");
    reveal_strlit("Shannon");
    reveal_strlit("Darwin");
    let a = founder_names()[i];
    let b = founder_names()[j];
    assert(a[0] != b[0] || a[1] != b[1]);
    let p = scp_prefix();
    assert((p + a).skip(p.len() as int) =~= a);
    assert((p + b).skip(p.len() as int) =~= b);
}


/// The colour an agent of role `role` is drawn with.
pub open spec fn role_colour(role: Role) -> Seq<char> {
    match role {
        Role::Founder => "#FFD700"@,
        Role::Scout => "#00CED1"@,
        Role::Builder => "#32CD32"@,
        Role::Attester => "#FF00FF"@,
        Role::Forager => "#4169E1"@,
        Role::Broadcaster => "#00CED1"@,
        Role::Explorer => "#FFD700"@,
        Role::Healer => "#32CD32"@,
        Role::Signal => "#FFA500"@,
        Role::Observer => "#666666"@,
        _ => "#FFFFFF"@,
    }
}

/// The colour an agent is drawn with: red when quarantined, orange-red when
/// low on energy, else the colour of its role.
pub fn agent_colour(role: Role, is_rogue: bool, low_energy: bool) -> (c: &'static str)
    ensures
        c@ == (if is_rogue {
            "#FF0000"@
        } else if low_energy {
            "#FF6644"@
        } else {
            role_colour(role)
        }),
{
    if is_rogue {
        return "#FF0000";
    }
    if low_energy {
        return "#FF6644";
    }
    match role {
        Role::Founder => "#FFD700",
        Role::Scout => "#00CED1",
        Role::Builder => "#32CD32",
        Role::Attester => "#FF00FF",
        Role::Forager => "#4169E1",
        Role::Broadcaster => "#00CED1",
        Role::Explorer => "#FFD700",
        Role::Healer => "#32CD32",
        Role::Signal => "#FFA500",
        Role::Observer => "#666666",
        _ => "#FFFFFF",
    }
}


/// The colour a resource patch is drawn with: grey when depleted, green above
/// three quarters of its capacity, yellow above a quarter, red otherwise.
pub fn patch_colour(depleted: bool, above_three_quarters: bool, above_quarter: bool) -> (c:
    &'static str)
    ensures
        c@ == (if depleted {
            "#333333"@
        } else if above_three_quarters {
            "#50C850"@
        } else if above_quarter {
            "#C8C850"@
        } else {
            "#C85050"@
        }),
{
    if depleted {
        "#333333"
    } else if above_three_quarters {
        "#50C850"
    } else if above_quarter {
        "#C8C850"
    } else {
        "#C85050"
    }
}

} // verus!
