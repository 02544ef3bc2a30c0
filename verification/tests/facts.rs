use winfetch::enums::StatType;
use winfetch::facts::{CollectError, FactSet};

const ALL: [StatType; 8] = [
    StatType::Os,
    StatType::Kernel,
    StatType::Cpu,
    StatType::Gpu,
    StatType::Resolution,
    StatType::Ram,
    StatType::Uptime,
    StatType::Disks,
];

#[test]
fn labels_of_the_categories() {
    let labels: Vec<&str> = ALL.iter().map(|category| category.label()).collect();
    assert_eq!(
        labels,
        vec!["OS", "Kernel", "CPU", "GPU", "Resolution", "Memory", "Uptime", "Disk"]
    );
}

#[test]
fn categories_are_told_apart() {
    for (i, a) in ALL.iter().enumerate() {
        for (j, b) in ALL.iter().enumerate() {
            assert_eq!(a == b, i == j);
        }
    }
}

#[test]
fn new_set_is_empty() {
    let facts = FactSet::new();
    for category in ALL {
        assert_eq!(facts.get(category), None);
    }
    assert!(!facts.is_complete());
}

#[test]
fn insert_sets_one_category() {
    let mut facts = FactSet::new();
    facts.insert(StatType::Cpu, "Ryzen".to_string());
    for category in ALL {
        if category == StatType::Cpu {
            assert_eq!(facts.get(category), Some(&"Ryzen".to_string()));
        } else {
            assert_eq!(facts.get(category), None);
        }
    }
}

#[test]
fn insert_replaces_an_earlier_value() {
    let mut facts = FactSet::new();
    facts.insert(StatType::Gpu, "first".to_string());
    facts.insert(StatType::Gpu, "second".to_string());
    assert_eq!(facts.get(StatType::Gpu), Some(&"second".to_string()));
}

#[test]
fn set_is_complete_with_all_eight() {
    let mut facts = FactSet::new();
    for (i, category) in ALL.iter().enumerate() {
        assert!(!facts.is_complete());
        facts.insert(*category, format!("value {}", i));
    }
    assert!(facts.is_complete());
    for (i, category) in ALL.iter().enumerate() {
        assert_eq!(facts.get(*category), Some(&format!("value {}", i)));
    }
}

#[test]
fn set_without_one_is_not_complete() {
    for missing in ALL {
        let mut facts = FactSet::new();
        for category in ALL {
            if category != missing {
                facts.insert(category, String::new());
            }
        }
        assert!(!facts.is_complete());
    }
}

#[test]
fn errors_have_messages() {
    assert_eq!(
        CollectError::ChannelUnavailable.message(),
        "management channel unavailable"
    );
    assert_eq!(CollectError::IncompleteData.message(), "a required fact is missing");
    assert_eq!(CollectError::MalformedValue.message(), "a field could not be read");
}
