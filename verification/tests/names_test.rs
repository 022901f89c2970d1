use mqtt_system_monitor::daemon::{select_temp_components, Probe};
use mqtt_system_monitor::names::{contains_name, distinct_names};
use mqtt_system_monitor::string_map::precedes;
use mqtt_system_monitor::StringMap;

fn strings(list: &[&str]) -> Vec<String> {
    list.iter().map(|s| s.to_string()).collect()
}

#[test]
fn names_are_kept_once() {
    assert_eq!(
        distinct_names(&strings(&["eth0", "lo", "eth0", "wlan0", "lo"])),
        strings(&["eth0", "lo", "wlan0"])
    );
    assert_eq!(distinct_names(&Vec::new()), Vec::<String>::new());
    assert!(contains_name(&strings(&["a", "b"]), &"b".to_string()));
    assert!(!contains_name(&strings(&["a", "b"]), &"c".to_string()));
}

#[test]
fn probes_are_selected_in_discovery_order() {
    let discovered = vec![
        Probe {
            id: "a".to_string(),
            label: "A".to_string(),
        },
        Probe {
            id: "b".to_string(),
            label: "B".to_string(),
        },
        Probe {
            id: "c".to_string(),
            label: "C".to_string(),
        },
    ];
    let selected = select_temp_components(&discovered, &strings(&["c", "missing", "a"]));
    let ids: Vec<&str> = selected.iter().map(|p| p.id.as_str()).collect();
    assert_eq!(ids, vec!["a", "c"]);
    assert_eq!(selected[1].label, "C");
    assert!(select_temp_components(&discovered, &Vec::new()).is_empty());
}

#[test]
fn string_map_holds_each_key_once() {
    let mut map: StringMap<u32> = StringMap::new();
    assert!(map.is_empty());
    map.insert("a".to_string(), 1);
    map.insert("b".to_string(), 2);
    map.insert("a".to_string(), 3);
    assert_eq!(map.len(), 2);
    assert_eq!(map.get(&"a".to_string()), Some(&3));
    assert_eq!(map.get(&"b".to_string()), Some(&2));
    assert_eq!(map.get(&"c".to_string()), None);
    assert_eq!(map.position(&"b".to_string()), Some(1));
    assert_eq!(map.key_at(0), "a");
    assert_eq!(*map.value_at(1), 2);
    map.remove(&"c".to_string());
    assert_eq!(map.len(), 2);
    map.remove(&"a".to_string());
    assert_eq!(map.len(), 1);
    assert!(!map.contains_key(&"a".to_string()));
    assert!(map.contains_key(&"b".to_string()));
}

#[test]
fn string_map_is_sorted_by_key() {
    let mut map: StringMap<u32> = StringMap::new();
    for (i, key) in ["m", "z", "a", "mm", "", "é", "b"].iter().enumerate() {
        map.insert(key.to_string(), i as u32);
    }
    let keys: Vec<&str> = (0..map.len()).map(|i| map.key_at(i).as_str()).collect();
    assert_eq!(keys, vec!["", "a", "b", "m", "mm", "z", "é"]);
    assert_eq!(map.get(&"mm".to_string()), Some(&3));
    map.remove(&"m".to_string());
    let keys: Vec<&str> = (0..map.len()).map(|i| map.key_at(i).as_str()).collect();
    assert_eq!(keys, vec!["", "a", "b", "mm", "z", "é"]);
}

#[test]
fn order_of_keys() {
    let s = |t: &str| t.to_string();
    assert!(precedes(&s("a"), &s("b")));
    assert!(!precedes(&s("b"), &s("a")));
    assert!(!precedes(&s("a"), &s("a")));
    assert!(precedes(&s(""), &s("a")));
    assert!(!precedes(&s("a"), &s("")));
    assert!(precedes(&s("ab"), &s("abc")));
    assert!(precedes(&s("abc"), &s("abd")));
    assert!(precedes(&s("Z"), &s("a")));
    assert!(precedes(&s("z"), &s("é")));
}
