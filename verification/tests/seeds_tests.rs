use termdaw::scalar::Scalar;
use termdaw::seeds::{diff, settle, FileSeed, ParamSeed, SampleSeed, Seed};

fn sample(name: &str, file: &str, method: &str) -> SampleSeed {
    SampleSeed { name: name.to_string(), file: file.to_string(), method: method.to_string() }
}

fn names(list: &[SampleSeed]) -> Vec<String> {
    list.iter().map(|seed| seed.name.clone()).collect()
}

#[test]
fn diff_tells_what_was_added_and_what_removed() {
    let old = vec![sample("snare", "snare.wav", "stereo"), sample("kick", "kick.wav", "left")];
    let new = vec![sample("kick", "kick.wav", "left"), sample("hat", "hat.wav", "stereo"), sample("tom", "tom.wav", "mix-down")];
    let (adds, removes) = diff(&old, &new);
    assert_eq!(names(&adds), vec!["hat", "tom"]);
    assert_eq!(names(&removes), vec!["snare"]);
}

#[test]
fn a_changed_declaration_is_removed_and_added() {
    let old = vec![sample("kick", "kick.wav", "left")];
    let new = vec![sample("kick", "kick.wav", "right")];
    let (adds, removes) = diff(&old, &new);
    assert_eq!(names(&adds), vec!["kick"]);
    assert_eq!(adds[0].method, "right");
    assert_eq!(names(&removes), vec!["kick"]);
    assert_eq!(removes[0].method, "left");
}

#[test]
fn the_same_description_adds_and_removes_nothing() {
    let old = vec![sample("snare", "snare.wav", "stereo"), sample("kick", "kick.wav", "left")];
    let new = vec![sample("snare", "snare.wav", "stereo"), sample("kick", "kick.wav", "left")];
    let (adds, removes) = diff(&old, &new);
    assert!(adds.is_empty());
    assert!(removes.is_empty());
}

#[test]
fn what_failed_is_struck_from_the_record() {
    let declared = vec![sample("a", "a.wav", ""), sample("b", "b.wav", ""), sample("c", "c.wav", "")];
    let record = settle(&declared, &vec!["b".to_string(), "x".to_string()]);
    assert_eq!(names(&record), vec!["a", "c"]);
    let record = settle(&declared, &vec![]);
    assert_eq!(names(&record), vec!["a", "b", "c"]);
    let record = settle(&declared, &vec!["c".to_string(), "a".to_string(), "b".to_string()]);
    assert!(record.is_empty());
}

#[test]
fn files_and_parameters_compare_by_all_they_say() {
    let a = FileSeed { name: "table".to_string(), file: "a.wtable".to_string() };
    let b = FileSeed { name: "table".to_string(), file: "b.wtable".to_string() };
    assert!(a.same(&a.duplicate()));
    assert!(!a.same(&b));
    assert!(a.is_named(&"table".to_string()));
    assert!(!a.is_named(&"a.wtable".to_string()));
    let p = ParamSeed { plugin: "verb".to_string(), name: "mix".to_string(), value: Scalar::from_bits(0.5f32.to_bits()) };
    let q = ParamSeed { plugin: "verb".to_string(), name: "mix".to_string(), value: Scalar::from_bits(0.6f32.to_bits()) };
    assert!(p.same(&p.duplicate()));
    assert!(!p.same(&q));
    assert!(p.is_named(&"verb".to_string()));
    let (adds, removes) = diff(&vec![p], &vec![q]);
    assert_eq!(adds.len(), 1);
    assert_eq!(removes.len(), 1);
    assert_eq!(f32::from_bits(adds[0].value.to_bits()), 0.6);
}
