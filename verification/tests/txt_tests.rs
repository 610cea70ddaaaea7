use xinzuo_store::project::ProjectStore;
use xinzuo_store::txt::split_paragraphs;

const T1: &str = "2026-03-01T08:00:00+00:00";

#[test]
fn export_lays_out_volumes_and_chapters() {
    let mut store = ProjectStore::new();
    let v1 = store.create_volume("One", T1);
    let c1 = store.create_chapter(&v1.id, "First", T1);
    store.update_chapter(&c1.id, "hello", T1, 20);
    let c2 = store.create_chapter(&v1.id, "Second", T1);
    store.update_chapter(&c2.id, "world", T1, 20);
    let v2 = store.create_volume("Two", T1);
    let c3 = store.create_chapter(&v2.id, "Third", T1);
    store.update_chapter(&c3.id, "bye", T1, 20);

    let text = store.export_txt();
    assert_eq!(
        text,
        "【One】\n\nFirst\n\nhello\n\nSecond\n\nworld\n\n【Two】\n\nThird\n\nbye\n\n"
    );
}

#[test]
fn export_of_empty_project_is_empty() {
    let store = ProjectStore::new();
    assert_eq!(store.export_txt(), "");
}

#[test]
fn paragraphs_split_on_blank_lines() {
    let parts = split_paragraphs("alpha\n\nbeta\n\ngamma");
    assert_eq!(parts, vec!["alpha", "beta", "gamma"]);
}

#[test]
fn paragraphs_are_trimmed_and_empties_dropped() {
    let parts = split_paragraphs("  alpha  \n\n\n\n\n  beta\n");
    assert_eq!(parts, vec!["alpha", "beta"]);
    assert_eq!(split_paragraphs("\n\n\n\n").len(), 0);
    assert_eq!(split_paragraphs("").len(), 0);
}

#[test]
fn single_newlines_stay_inside_a_paragraph() {
    let parts = split_paragraphs("line one\nline two\n\nnext");
    assert_eq!(parts, vec!["line one\nline two", "next"]);
}

#[test]
fn import_creates_numbered_chapters() {
    let mut store = ProjectStore::new();
    store.create_volume("Existing", T1);
    let vol = store.import_txt("Imported", "one one\n\ntwo\n\n\n", T1);

    assert_eq!(vol.name, "Imported");
    assert_eq!(vol.sort_order, 1);
    assert_eq!(store.volumes.len(), 2);

    let chapters = store.list_chapters(&vol.id);
    assert_eq!(chapters.len(), 2);
    assert_eq!(chapters[0].name, "第1章");
    assert_eq!(chapters[0].content, "one one");
    assert_eq!(chapters[0].word_count, "one one".chars().count() as i64);
    assert_eq!(chapters[0].sort_order, 0);
    assert_eq!(chapters[0].status, "draft");
    assert_eq!(chapters[1].name, "第2章");
    assert_eq!(chapters[1].content, "two");
    assert_eq!(chapters[1].sort_order, 1);
}

#[test]
fn export_follows_sort_order() {
    let mut store = ProjectStore::new();
    let v1 = store.create_volume("One", T1);
    let v2 = store.create_volume("Two", T1);
    let c1 = store.create_chapter(&v1.id, "A", T1);
    let c2 = store.create_chapter(&v1.id, "B", T1);
    store.create_chapter(&v2.id, "C", T1);
    store.reorder_volumes(&vec![v2.id.clone(), v1.id.clone()]);
    store.reorder_chapters(&vec![c2.id.clone(), c1.id.clone()]);
    let text = store.export_txt();
    assert_eq!(text, "【Two】\n\nC\n\n\n\n【One】\n\nB\n\n\n\nA\n\n\n\n");
}
