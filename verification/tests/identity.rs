use replicant::capsule::Capsule;
use replicant::demo::{founder_roster, greet};
use replicant::types::Role;
use replicant::world::WorldConfig;

#[test]
fn world_config_defaults() {
    let c = WorldConfig::default();
    assert_eq!((c.seed, c.ticks, c.commit_attestations, c.n_patches), (42, 200, 2, 10));
    let d = replicant::demo::WorldConfig::default();
    assert_eq!((d.seed, d.ticks, d.commit_attestations, d.n_patches), (42, 1000, 2, 10));
}

#[test]
fn greeting_text() {
    assert_eq!(greet(), "🧬 Replicant WASM is running!");
}

#[test]
fn founders_roster() {
    let r = founder_roster();
    assert_eq!(r.len(), 10);
    assert_eq!(r[0].name, "Sagan");
    assert_eq!(r[0].scp_id, "replicant/agent/Sagan");
    assert_eq!(r[0].role, Role::Founder);
    assert_eq!(r[9].name, "Darwin");
    assert_eq!(r[9].role, Role::Observer);
    assert_eq!(r[6].scp_id, "replicant/agent/Tesla");
    assert_eq!(r[6].role, Role::Explorer);
    let mut ids: Vec<&String> = r.iter().map(|f| &f.scp_id).collect();
    ids.sort();
    ids.dedup();
    assert_eq!(ids.len(), 10);
}

#[test]
fn capsules_get_fresh_uuid_identifiers() {
    let a = Capsule::mint(vec!["parent".to_string()], serde_json::Value::Null);
    let b = Capsule::mint(Vec::new(), serde_json::Value::Bool(true));
    assert!(a.scp_id.starts_with("replicant/agent/"));
    let u = &a.scp_id["replicant/agent/".len()..];
    assert_eq!(u.len(), 36);
    for (i, ch) in u.chars().enumerate() {
        if [8, 13, 18, 23].contains(&i) {
            assert_eq!(ch, '-');
        } else {
            assert!(ch.is_ascii_hexdigit() && !ch.is_ascii_uppercase());
        }
    }
    assert_eq!(u.chars().nth(14), Some('4'));
    assert_ne!(a.scp_id, b.scp_id);
    assert_eq!(a.inherits, vec!["parent".to_string()]);
    assert_eq!(a.licence, "MSL-1.0");
    assert_eq!(b.declaration, serde_json::Value::Bool(true));
}
