use procpin::priority::Priority;

const ALL: [Priority; 6] = [
    Priority::Low,
    Priority::BelowNormal,
    Priority::Normal,
    Priority::AboveNormal,
    Priority::High,
    Priority::Realtime,
];

#[test]
fn each_level_maps_to_its_class() {
    assert_eq!(Priority::Low.class(), 0x40);
    assert_eq!(Priority::BelowNormal.class(), 0x4000);
    assert_eq!(Priority::Normal.class(), 0x20);
    assert_eq!(Priority::AboveNormal.class(), 0x8000);
    assert_eq!(Priority::High.class(), 0x80);
    assert_eq!(Priority::Realtime.class(), 0x100);
}

#[test]
fn classes_do_not_overlap() {
    for (i, p) in ALL.iter().enumerate() {
        for (j, q) in ALL.iter().enumerate() {
            assert_eq!(i == j, p.class() == q.class());
        }
    }
}

#[test]
fn level_names() {
    assert_eq!(Priority::Low.name(), "low");
    assert_eq!(Priority::BelowNormal.name(), "below-normal");
    assert_eq!(Priority::Normal.name(), "normal");
    assert_eq!(Priority::AboveNormal.name(), "above-normal");
    assert_eq!(Priority::High.name(), "high");
    assert_eq!(Priority::Realtime.name(), "realtime");
}

#[test]
fn every_name_finds_its_level() {
    for p in ALL {
        assert_eq!(Priority::from_name(p.name()), Some(p));
    }
}

#[test]
fn names_ignore_case() {
    assert_eq!(Priority::from_name("LOW"), Some(Priority::Low));
    assert_eq!(Priority::from_name("Below-Normal"), Some(Priority::BelowNormal));
    assert_eq!(Priority::from_name("ABOVE-normal"), Some(Priority::AboveNormal));
    assert_eq!(Priority::from_name("RealTime"), Some(Priority::Realtime));
}

#[test]
fn unknown_names_are_refused() {
    assert_eq!(Priority::from_name(""), None);
    assert_eq!(Priority::from_name("idle"), None);
    assert_eq!(Priority::from_name("belownormal"), None);
    assert_eq!(Priority::from_name("low "), None);
    assert_eq!(Priority::from_name("hig"), None);
}
