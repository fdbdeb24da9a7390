use lightctl::light::Light;
use lightctl::registry::Registry;

fn addr(s: &str) -> String {
    String::from(s)
}

#[test]
fn unknown_address_reads_empty() {
    let reg = Registry::new();
    assert!(!reg.contains(&addr("10.0.0.9:56700")));
    assert!(reg.get(&addr("10.0.0.9:56700")).is_none());
}

#[test]
fn ensure_entry_creates_default_once() {
    let mut reg = Registry::new();
    let a = addr("10.0.0.2:56700");
    reg.ensure_entry(&a);
    {
        let light = reg.get(&a).unwrap();
        assert_eq!(light.label, None);
        assert_eq!(light.firmware_version, None);
        assert_eq!(light.power, None);
        assert_eq!(light.hue, None);
        assert_eq!(light.saturation, None);
        assert_eq!(light.brightness, None);
        assert_eq!(light.kelvin, None);
    }
    reg.merge_label(&a, String::from("Lamp"));
    // a second advertisement must not reset the populated entry
    reg.ensure_entry(&a);
    assert_eq!(reg.get(&a).unwrap().label, Some(String::from("Lamp")));
}

#[test]
fn label_merge_keeps_unrelated_fields() {
    let mut reg = Registry::new();
    let a = addr("10.0.0.2:56700");
    reg.merge_light_state(&a, 100, 200, 300, 4000, 65535, String::from("Lamp"));
    reg.merge_label(&a, String::from("Desk Lamp"));
    let light = reg.get(&a).unwrap();
    assert_eq!(light.label, Some(String::from("Desk Lamp")));
    assert_eq!(light.hue, Some(100));
    assert_eq!(light.saturation, Some(200));
    assert_eq!(light.brightness, Some(300));
    assert_eq!(light.kelvin, Some(4000));
    assert_eq!(light.power, Some(65535));
    assert_eq!(light.firmware_version, None);
}

#[test]
fn firmware_merge_keeps_unrelated_fields() {
    let mut reg = Registry::new();
    let a = addr("10.0.0.2:56700");
    reg.merge_label(&a, String::from("Lamp"));
    reg.merge_firmware(&a, String::from("1532997580.3.70"));
    let light = reg.get(&a).unwrap();
    assert_eq!(light.label, Some(String::from("Lamp")));
    assert_eq!(light.firmware_version, Some(String::from("1532997580.3.70")));
    assert_eq!(light.power, None);
}

#[test]
fn light_state_merge_keeps_firmware() {
    let mut reg = Registry::new();
    let a = addr("10.0.0.2:56700");
    reg.merge_firmware(&a, String::from("1.2.3"));
    reg.merge_light_state(&a, 1, 2, 3, 4, 5, String::from("L"));
    let light = reg.get(&a).unwrap();
    assert_eq!(light.firmware_version, Some(String::from("1.2.3")));
    assert_eq!(light.label, Some(String::from("L")));
    assert_eq!(light.power, Some(5));
}

#[test]
fn distinct_addresses_hold_distinct_entries() {
    let mut reg = Registry::new();
    let a = addr("10.0.0.2:56700");
    let b = addr("10.0.0.3:56700");
    reg.merge_label(&a, String::from("One"));
    reg.merge_label(&b, String::from("Two"));
    assert_eq!(reg.get(&a).unwrap().label, Some(String::from("One")));
    assert_eq!(reg.get(&b).unwrap().label, Some(String::from("Two")));
}

#[test]
fn merge_on_missing_entry_creates_it() {
    let mut reg = Registry::new();
    let a = addr("10.0.0.7:56700");
    reg.merge_firmware(&a, String::from("9.9.9"));
    let light = reg.get(&a).unwrap();
    assert_eq!(light.firmware_version, Some(String::from("9.9.9")));
    assert_eq!(light.label, None);
}

#[test]
fn snapshot_copies_every_entry() {
    let mut reg = Registry::new();
    reg.merge_label(&addr("10.0.0.2:56700"), String::from("One"));
    reg.merge_label(&addr("10.0.0.3:56700"), String::from("Two"));
    let snap: Vec<(String, Light)> = reg.snapshot();
    assert_eq!(snap.len(), 2);
    let one = snap.iter().find(|(a, _)| a == "10.0.0.2:56700").unwrap();
    let two = snap.iter().find(|(a, _)| a == "10.0.0.3:56700").unwrap();
    assert_eq!(one.1.label, Some(String::from("One")));
    assert_eq!(two.1.label, Some(String::from("Two")));
}

#[test]
fn set_power_replaces_only_power() {
    let mut reg = Registry::new();
    let a = addr("10.0.0.2:56700");
    reg.merge_light_state(&a, 1, 2, 3, 4, 0, String::from("L"));
    reg.set_power(&a, 65535);
    let light = reg.get(&a).unwrap();
    assert_eq!(light.power, Some(65535));
    assert_eq!(light.hue, Some(1));
    assert_eq!(light.label, Some(String::from("L")));
}

#[test]
fn default_light_has_no_fields() {
    let light = Light::default();
    assert_eq!(light.label, None);
    assert_eq!(light.firmware_version, None);
    assert_eq!(light.power, None);
    assert_eq!(light.hue, None);
    assert_eq!(light.saturation, None);
    assert_eq!(light.brightness, None);
    assert_eq!(light.kelvin, None);
}
