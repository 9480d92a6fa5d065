use ngenrs::exports::ExportRegistry;

#[test]
fn exports_under_distinct_names_coexist() {
    let mut reg: ExportRegistry<u32> = ExportRegistry::new();
    assert_eq!(reg.register("a".to_string(), 1), None);
    assert_eq!(reg.register("b".to_string(), 2), None);
    assert_eq!(reg.len(), 2);
    assert_eq!(reg.lookup("a"), Some(&1));
    assert_eq!(reg.lookup("b"), Some(&2));
    assert_eq!(reg.lookup("c"), None);
}

#[test]
fn exporting_again_hands_back_the_old_callback() {
    let mut reg: ExportRegistry<u32> = ExportRegistry::new();
    reg.register("f".to_string(), 1);
    assert_eq!(reg.register("f".to_string(), 2), Some(1));
    assert_eq!(reg.len(), 1);
    assert_eq!(reg.lookup("f"), Some(&2));
}

#[test]
fn withdrawing_an_export() {
    let mut reg: ExportRegistry<u32> = ExportRegistry::new();
    reg.register("f".to_string(), 1);
    assert_eq!(reg.remove("f"), Some(1));
    assert_eq!(reg.remove("f"), None);
    assert_eq!(reg.len(), 0);
}
