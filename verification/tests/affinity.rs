use disruptor::affinity::{cpu_core, has_core, pinning_result, set_affinity_if_defined, Pinning};

#[test]
fn a_core_is_found_in_the_list() {
    assert!(has_core(&Some(vec![0, 3, 5]), 3));
    assert!(has_core(&Some(vec![0, 3, 5]), 5));
    assert!(!has_core(&Some(vec![0, 3, 5]), 4));
    assert!(!has_core(&Some(vec![]), 0));
    assert!(!has_core(&None, 0));
}

#[test]
fn cores_are_those_that_the_system_lists() {
    let listed: Vec<usize> = core_affinity::get_core_ids()
        .unwrap_or_default()
        .iter()
        .map(|core| core.id)
        .collect();
    for id in 0..64 {
        assert_eq!(listed.contains(&id), cpu_core(id).is_some());
    }
    assert!(cpu_core(usize::MAX).is_none());
    for id in listed {
        assert_eq!(Some(id), cpu_core(id).map(|core| core.id()));
    }
}

#[test]
fn a_thread_without_a_core_is_left_alone() {
    assert!(matches!(set_affinity_if_defined(None), Pinning::Undefined));
}

#[test]
fn a_thread_is_pinned_to_its_core() {
    if let Some(first) = core_affinity::get_core_ids().and_then(|ids| ids.first().copied()) {
        let core = cpu_core(first.id).unwrap();
        match set_affinity_if_defined(Some(core)) {
            Pinning::Undefined => panic!("a core was given"),
            Pinning::Pinned => {
                let left: Vec<usize> = core_affinity::get_core_ids()
                    .unwrap_or_default()
                    .iter()
                    .map(|core| core.id)
                    .collect();
                assert_eq!(vec![first.id], left);
            }
            Pinning::Failed { core } => assert_eq!(first.id, core.id()),
        }
        assert!(matches!(pinning_result(core, true), Pinning::Pinned));
        match pinning_result(core, false) {
            Pinning::Failed { core } => assert_eq!(first.id, core.id()),
            _ => panic!("the attempt failed"),
        }
    }
}
