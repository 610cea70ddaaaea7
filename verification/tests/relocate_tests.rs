use xinzuo_store::paths::AppConfig;
use xinzuo_store::relocate::{relocated_config, relocation_plan, RelocationPlan};

fn cfg(dir: &str) -> AppConfig {
    AppConfig { data_dir: dir.to_string() }
}

#[test]
fn same_root_is_a_no_op() {
    let c = cfg("/data/a");
    assert_eq!(relocation_plan(&c, "/data/a", true), RelocationPlan::Unchanged);
    assert_eq!(relocation_plan(&c, "/data/a", false), RelocationPlan::Unchanged);
}

#[test]
fn missing_old_tree_only_adopts_the_configuration() {
    let c = cfg("/data/a");
    assert_eq!(relocation_plan(&c, "/data/b", false), RelocationPlan::AdoptOnly);
}

#[test]
fn existing_tree_moves() {
    let c = cfg("/data/a");
    assert_eq!(relocation_plan(&c, "/data/b", true), RelocationPlan::Move);
}

#[test]
fn second_relocation_is_a_no_op() {
    // the first relocation completed: the configuration now holds the new
    // root, and the old tree is gone
    let c = cfg("/data/a");
    assert_eq!(relocation_plan(&c, "/data/b", true), RelocationPlan::Move);
    let after = relocated_config("/data/b");
    assert_eq!(after.data_dir, "/data/b");
    // same arguments again: nothing to do, whatever the disk now shows
    assert_eq!(relocation_plan(&after, "/data/b", true), RelocationPlan::Unchanged);
    assert_eq!(relocation_plan(&after, "/data/b", false), RelocationPlan::Unchanged);
}
