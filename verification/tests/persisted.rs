use reminders::commands::get_groups;
use reminders::group::GroupRecord;
use reminders::notice::Notice;
use reminders::store::Instance;
use serde_json::{Number, Value};
use std::sync::mpsc::channel;

fn to_value(record: &GroupRecord) -> Value {
    let mut fields = serde_json::Map::new();
    fields.insert("title".to_string(), Value::String(record.title.clone()));
    fields.insert("description".to_string(), Value::String(record.description.clone()));
    fields.insert("enabled".to_string(), Value::Bool(record.enabled));
    fields.insert("id".to_string(), Value::String(record.id.clone()));
    fields.insert("cron".to_string(), Value::String(record.cron.clone()));
    let next_date = match record.next_date {
        Some(seconds) => Value::Number(Number::from(seconds)),
        None => Value::Null,
    };
    fields.insert("next_date".to_string(), next_date);
    Value::Object(fields)
}

fn from_value(value: &Value) -> GroupRecord {
    GroupRecord {
        title: value["title"].as_str().unwrap().to_string(),
        description: value["description"].as_str().unwrap().to_string(),
        enabled: value["enabled"].as_bool().unwrap(),
        id: value["id"].as_str().unwrap().to_string(),
        cron: value["cron"].as_str().unwrap().to_string(),
        next_date: value["next_date"].as_u64(),
    }
}

#[test]
fn a_saved_collection_loads_field_for_field() {
    let records = vec![
        GroupRecord {
            title: "Water plants".to_string(),
            description: "The \"ferns\" first\n".to_string(),
            enabled: true,
            id: "abcdefg".to_string(),
            cron: "0 0 9 * * *".to_string(),
            next_date: Some(1_700_000_000),
        },
        GroupRecord {
            title: "休息".to_string(),
            description: String::new(),
            enabled: false,
            id: "2345672".to_string(),
            cron: "@daily".to_string(),
            next_date: None,
        },
    ];
    let (sink, _received) = channel::<Notice>();
    let store = Instance::from_records(&records, "tag".to_string(), sink).unwrap();

    let saved: Vec<Value> = get_groups(&store).iter().map(to_value).collect();
    let text = serde_json::to_string_pretty(&Value::Array(saved)).unwrap();
    assert!(!text.contains("job_id"));

    let parsed: Value = serde_json::from_str(&text).unwrap();
    let loaded: Vec<GroupRecord> = parsed.as_array().unwrap().iter().map(from_value).collect();
    assert_eq!(loaded, records);

    let (sink, _received) = channel::<Notice>();
    let reopened = Instance::from_records(&loaded, "tag".to_string(), sink).unwrap();
    assert_eq!(get_groups(&reopened), records);
    for index in 0..reopened.len() {
        assert_eq!(reopened.group(index).unwrap().job_id, None);
    }
}
