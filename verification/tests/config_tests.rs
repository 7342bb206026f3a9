use zode::config::{
    default_program_ids, DefaultProgramsConfig, DefaultServicesConfig, KnownPrograms,
    SectorFilter, SectorLimitsConfig, ServiceRegistryConfig, ZodeConfig,
};
use zode::ids::{bytes_equal, IdSet};

fn known() -> KnownPrograms {
    KnownPrograms {
        zid_v1: Some(vec![1, 1]),
        zid_v2: Some(vec![1, 2]),
        interlink_v1: Some(vec![2, 1]),
        interlink_v2: Some(vec![2, 2]),
    }
}

fn sorted(set: &IdSet) -> Vec<Vec<u8>> {
    let mut v = set.as_vec().clone();
    v.sort();
    v
}

#[test]
fn default_programs_are_enabled() {
    let c = DefaultProgramsConfig::default();
    assert!(c.zid);
    assert!(c.interlink);
}

#[test]
fn enabled_program_ids_both_programs() {
    let c = DefaultProgramsConfig::default();
    let ids = c.enabled_program_ids(&known());
    assert_eq!(sorted(&ids), vec![vec![1, 1], vec![1, 2], vec![2, 1], vec![2, 2]]);
}

#[test]
fn enabled_program_ids_zid_disabled() {
    let c = DefaultProgramsConfig { zid: false, interlink: true };
    let ids = c.enabled_program_ids(&known());
    assert_eq!(sorted(&ids), vec![vec![2, 1], vec![2, 2]]);
}

#[test]
fn enabled_program_ids_interlink_disabled() {
    let c = DefaultProgramsConfig { zid: true, interlink: false };
    let ids = c.enabled_program_ids(&known());
    assert_eq!(sorted(&ids), vec![vec![1, 1], vec![1, 2]]);
}

#[test]
fn enabled_program_ids_none_enabled() {
    let c = DefaultProgramsConfig { zid: false, interlink: false };
    assert_eq!(c.enabled_program_ids(&known()).len(), 0);
}

#[test]
fn enabled_program_ids_skip_failed_descriptors() {
    let c = DefaultProgramsConfig::default();
    let k = KnownPrograms { zid_v1: None, zid_v2: Some(vec![9]), interlink_v1: None, interlink_v2: None };
    assert_eq!(sorted(&c.enabled_program_ids(&k)), vec![vec![9]]);
}

#[test]
fn default_program_ids_names_in_order() {
    let out = default_program_ids(&known());
    let names: Vec<&str> = out.iter().map(|e| e.0).collect();
    assert_eq!(names, vec!["ZID v1", "ZID v2", "Interlink v1", "Interlink v2"]);
    assert_eq!(out[2].1, vec![2, 1]);
}

#[test]
fn default_program_ids_skips_missing() {
    let k = KnownPrograms { zid_v1: Some(vec![5]), zid_v2: None, interlink_v1: None, interlink_v2: Some(vec![6]) };
    let out = default_program_ids(&k);
    assert_eq!(out, vec![("ZID v1", vec![5]), ("Interlink v2", vec![6])]);
}

#[test]
fn default_list_is_default_subscription() {
    let listed: Vec<Vec<u8>> = {
        let mut v: Vec<Vec<u8>> = default_program_ids(&known()).into_iter().map(|e| e.1).collect();
        v.sort();
        v
    };
    let topics = ZodeConfig::default().effective_topics(&known());
    assert_eq!(sorted(&topics), listed);
}

#[test]
fn sector_limits_default() {
    let l = SectorLimitsConfig::default();
    assert_eq!(l.max_slot_size_bytes, 262_144);
    assert_eq!(l.max_per_program_bytes, None);
}

#[test]
fn services_default_off() {
    let s = DefaultServicesConfig::default();
    assert!(!s.identity && !s.interlink);
    let r = ServiceRegistryConfig::default();
    assert_eq!(r.enabled_services.len(), 0);
}

#[test]
fn zode_config_default() {
    let c = ZodeConfig::default();
    assert_eq!(c.storage_dir, ".zode/data");
    assert!(matches!(c.sector_filter, SectorFilter::All));
    assert_eq!(c.topics.len(), 0);
    assert!(c.service_configs.is_empty());
    assert_eq!(c.sector_limits.max_slot_size_bytes, 256 * 1024);
}

#[test]
fn effective_topics_union_with_explicit() {
    let mut c = ZodeConfig::default();
    c.default_programs.interlink = false;
    c.topics.insert(vec![7, 7]);
    c.topics.insert(vec![1, 1]);
    let t = c.effective_topics(&known());
    assert_eq!(sorted(&t), vec![vec![1, 1], vec![1, 2], vec![7, 7]]);
}

#[test]
fn effective_topics_disabled_program_removed() {
    let mut c = ZodeConfig::default();
    c.default_programs.zid = false;
    let t = c.effective_topics(&known());
    assert!(!t.contains(&vec![1, 1]));
    assert!(!t.contains(&vec![1, 2]));
    assert!(t.contains(&vec![2, 1]));
    assert!(t.contains(&vec![2, 2]));
}

#[test]
fn id_set_insert_is_idempotent() {
    let mut s = IdSet::new();
    assert!(s.insert(vec![3]));
    assert!(!s.insert(vec![3]));
    assert!(s.insert(vec![4]));
    assert_eq!(s.len(), 2);
    assert_eq!(s.as_vec(), &vec![vec![3], vec![4]]);
}

#[test]
fn id_set_extend_is_union() {
    let mut a = IdSet::new();
    a.insert(vec![1]);
    a.insert(vec![2]);
    let mut b = IdSet::new();
    b.insert(vec![2]);
    b.insert(vec![3]);
    a.extend(&b);
    assert_eq!(a.as_vec(), &vec![vec![1], vec![2], vec![3]]);
    let mut c = IdSet::new();
    c.insert(vec![9]);
    c.extend(&a);
    assert_eq!(c.as_vec(), &vec![vec![9], vec![1], vec![2], vec![3]]);
}

#[test]
fn bytes_equal_compares_contents() {
    assert!(bytes_equal(&vec![1, 2], &vec![1, 2]));
    assert!(!bytes_equal(&vec![1, 2], &vec![1, 3]));
    assert!(!bytes_equal(&vec![1], &vec![1, 2]));
    assert!(bytes_equal(&vec![], &vec![]));
}
