use osu2malody_store::services::capacity::{
    eviction_count, eviction_order, is_osz_file_name, keep_evicting, plan_osz_capacity, CapacityPlan,
    OszFileInfo,
};

/// A cached file: its name, its size, and how many seconds ago it was last served.
struct Fake {
    name: &'static str,
    size: u64,
    age_secs: u64,
}

const NOW: u128 = 1_700_000_000;

/// Run the capacity rules over `files` with `limit`, every deletion
/// succeeding, and return the files that survive, with their sizes.
fn surviving(files: &[Fake], limit: u64) -> Vec<(&'static str, u64)> {
    let osz: Vec<&Fake> = files.iter().filter(|f| is_osz_file_name(f.name)).collect();
    let infos: Vec<OszFileInfo> = osz
        .iter()
        .map(|f| OszFileInfo { size: f.size, modified: NOW - f.age_secs as u128 })
        .collect();
    let mut deleted = vec![false; osz.len()];
    if let CapacityPlan::Evict { order, total } = plan_osz_capacity(&infos, limit) {
        let k = eviction_count(&infos, &order, total, limit);
        for &idx in &order[..k] {
            deleted[idx] = true;
        }
    }
    let mut kept: Vec<(&'static str, u64)> = files
        .iter()
        .filter(|f| !is_osz_file_name(f.name))
        .map(|f| (f.name, f.size))
        .collect();
    for (i, f) in osz.iter().enumerate() {
        if !deleted[i] {
            kept.push((f.name, f.size));
        }
    }
    kept
}

fn names(kept: &[(&'static str, u64)]) -> Vec<&'static str> {
    kept.iter().map(|k| k.0).collect()
}

#[test]
fn deletes_oldest_until_under_limit() {
    let files = [
        Fake { name: "1.osz", size: 100, age_secs: 1000 },
        Fake { name: "2.osz", size: 200, age_secs: 500 },
        Fake { name: "3.osz", size: 300, age_secs: 100 },
    ];
    let kept = surviving(&files, 350);
    let kept_names = names(&kept);
    assert!(!kept_names.contains(&"1.osz"), "oldest should be deleted");
    assert!(!kept_names.contains(&"2.osz"), "second-oldest should be deleted");
    assert!(kept_names.contains(&"3.osz"), "newest should be kept");
    assert_eq!(kept.iter().find(|k| k.0 == "3.osz").map(|k| k.1), Some(300));
}

#[test]
fn limit_zero_keeps_everything() {
    let files = [
        Fake { name: "1.osz", size: 100, age_secs: 1000 },
        Fake { name: "2.osz", size: 200, age_secs: 500 },
    ];
    let kept = names(&surviving(&files, 0));
    assert!(kept.contains(&"1.osz"));
    assert!(kept.contains(&"2.osz"));
}

#[test]
fn ignores_non_osz_files() {
    let files = [
        Fake { name: "1.osz", size: 100, age_secs: 1000 },
        Fake { name: "notes.txt", size: 500, age_secs: 10 },
        Fake { name: "2.osz.part", size: 500, age_secs: 10 },
    ];
    let kept = names(&surviving(&files, 50));
    assert!(!kept.contains(&"1.osz"));
    assert!(kept.contains(&"notes.txt"), "non-.osz files must not be deleted");
    assert!(kept.contains(&"2.osz.part"), ".osz.part files must not be deleted");
}

#[test]
fn plan_unlimited_and_within_limit() {
    let infos = vec![
        OszFileInfo { size: 100, modified: 5 },
        OszFileInfo { size: 200, modified: 3 },
    ];
    assert!(matches!(plan_osz_capacity(&infos, 0), CapacityPlan::Unlimited));
    assert!(matches!(plan_osz_capacity(&infos, 300), CapacityPlan::WithinLimit));
    assert!(matches!(plan_osz_capacity(&infos, 1000), CapacityPlan::WithinLimit));
    assert!(matches!(plan_osz_capacity(&Vec::new(), 1), CapacityPlan::WithinLimit));
}

#[test]
fn plan_evicts_oldest_first_with_total() {
    let infos = vec![
        OszFileInfo { size: 10, modified: 30 },
        OszFileInfo { size: 20, modified: 10 },
        OszFileInfo { size: 30, modified: 20 },
    ];
    match plan_osz_capacity(&infos, 59) {
        CapacityPlan::Evict { order, total } => {
            assert_eq!(total, 60);
            assert_eq!(order, vec![1, 2, 0]);
        }
        _ => panic!("expected an eviction plan"),
    }
}

#[test]
fn eviction_order_is_stable_for_equal_times() {
    let infos = vec![
        OszFileInfo { size: 1, modified: 7 },
        OszFileInfo { size: 2, modified: 3 },
        OszFileInfo { size: 3, modified: 7 },
        OszFileInfo { size: 4, modified: 3 },
    ];
    assert_eq!(eviction_order(&infos), vec![1, 3, 0, 2]);
    assert_eq!(eviction_order(&Vec::new()), Vec::<usize>::new());
}

#[test]
fn keep_evicting_values() {
    assert!(keep_evicting(600, 0, 350));
    assert!(keep_evicting(600, 100, 350));
    assert!(!keep_evicting(600, 300, 350));
    assert!(!keep_evicting(600, 250, 350));
    assert!(!keep_evicting(100, 500, 0));
}

#[test]
fn osz_file_names() {
    assert!(is_osz_file_name("1.osz"));
    assert!(is_osz_file_name("MAP.OSZ"));
    assert!(is_osz_file_name("a.b.Osz"));
    assert!(!is_osz_file_name("2.osz.part"));
    assert!(!is_osz_file_name("notes.txt"));
    assert!(!is_osz_file_name("osz"));
}

#[test]
fn eviction_count_values() {
    let infos = vec![
        OszFileInfo { size: 100, modified: 1 },
        OszFileInfo { size: 200, modified: 2 },
        OszFileInfo { size: 300, modified: 3 },
    ];
    let order = vec![0, 1, 2];
    assert_eq!(eviction_count(&infos, &order, 600, 350), 2);
    assert_eq!(eviction_count(&infos, &order, 600, 500), 1);
    assert_eq!(eviction_count(&infos, &order, 600, 600), 0);
    assert_eq!(eviction_count(&infos, &order, 600, 0), 3);
    assert_eq!(eviction_count(&infos, &Vec::new(), 0, 0), 0);
}
