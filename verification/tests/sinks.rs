use easyswitch::audiosink::{
    confirm_sink, get_current_sink_data, get_current_sink_description, get_current_sink_index,
    get_current_sink_name, get_next_sink_pulseaudio_index, get_pactl_status, get_sinks,
    is_physical_sink, physical_sinks, set_next_sink,
};
use easyswitch::error::SwitchError;
use easyswitch::json::{parse, Json, Member};

const LISTING: &str = r#"[
    {"index":1,"name":"a","properties":{}},
    {"index":7,"name":"b","properties":{"node.virtual":"true"}},
    {"index":9,"name":"c","properties":{}}
]"#;

fn status_of(name: &str) -> Json {
    Json::Object(vec![Member {
        key: "default_sink_name".to_string(),
        value: Json::String(name.to_string()),
    }])
}

fn sinks_of(listing: &str) -> Vec<Json> {
    get_sinks(listing.as_bytes()).unwrap()
}

fn sink(text: &str) -> Json {
    parse(text).unwrap()
}

fn indices_of(sinks: &Vec<Json>) -> Vec<Option<u64>> {
    sinks.iter().map(|sink| sink.get("index").and_then(|index| index.as_u64())).collect()
}

#[test]
fn the_virtual_sink_is_left_out_of_the_listing() {
    let sinks = sinks_of(LISTING);
    assert_eq!(indices_of(&sinks), vec![Some(1), Some(9)]);
    assert_eq!(sinks[0], sink(r#"{"index":1,"name":"a","properties":{}}"#));
    assert_eq!(sinks[1], sink(r#"{"index":9,"name":"c","properties":{}}"#));
}

#[test]
fn next_after_the_first_physical_sink_is_the_other_one() {
    let sinks = sinks_of(LISTING);
    let status = get_pactl_status(br#"{"default_sink_name":"a"}"#).unwrap();
    assert_eq!(get_current_sink_index(&status, &sinks), Ok(1));
    assert_eq!(get_next_sink_pulseaudio_index(&status, &sinks), Ok(9));
    let change = set_next_sink(&status, &sinks).unwrap();
    assert_eq!(change.index, 9);
    assert_eq!(change.argument, "9");
}

#[test]
fn next_after_the_last_sink_wraps_to_the_first() {
    let sinks = sinks_of(LISTING);
    assert_eq!(get_next_sink_pulseaudio_index(&status_of("c"), &sinks), Ok(1));
}

#[test]
fn a_sink_without_the_property_is_physical() {
    assert!(is_physical_sink(&sink(r#"{"index":1,"name":"a","properties":{}}"#)));
    assert!(is_physical_sink(&sink(r#"{"index":1,"name":"a"}"#)));
    assert!(is_physical_sink(&sink(r#"{"properties":{"node.nick":"true"}}"#)));
    assert!(is_physical_sink(&sink(r#"{}"#)));
    assert!(is_physical_sink(&sink(r#"{"properties":null}"#)));
    assert!(is_physical_sink(&sink(r#"{"properties":["node.virtual","true"]}"#)));
    assert!(is_physical_sink(&sink(r#"{"node.virtual":"true"}"#)));
}

#[test]
fn a_sink_with_the_text_true_under_the_property_is_virtual() {
    assert!(!is_physical_sink(&sink(r#"{"properties":{"node.virtual":"true"}}"#)));
    assert!(!is_physical_sink(&sink(
        r#"{"index":7,"name":"b","properties":{"a":1,"node.virtual":"true","z":2}}"#
    )));
}

#[test]
fn a_sink_with_anything_else_under_the_property_is_physical() {
    let others = [
        r#""false""#,
        r#""True""#,
        r#""TRUE""#,
        r#""""#,
        r#"" true""#,
        r#""1""#,
        "true",
        "false",
        "1",
        "null",
        r#"["true"]"#,
        r#"{"true":"true"}"#,
    ];
    for value in others {
        let text = format!("{{\"properties\":{{\"node.virtual\":{}}}}}", value);
        assert!(is_physical_sink(&sink(&text)), "{}", value);
    }
}

#[test]
fn what_is_not_a_sink_object_counts_as_physical() {
    for value in ["null", "1", "\"true\"", "[]"] {
        assert!(is_physical_sink(&sink(value)), "{}", value);
    }
    assert_eq!(sinks_of("[null, 1, \"true\"]").len(), 3);
}

#[test]
fn the_physical_sinks_keep_the_order_of_the_listing() {
    let listing = r#"[
        {"index":5,"name":"e"},
        {"index":2,"name":"v","properties":{"node.virtual":"true"}},
        {"index":3,"name":"c"},
        {"index":4,"name":"w","properties":{"node.virtual":"true"}},
        {"index":1,"name":"a","properties":{"node.virtual":"false"}}
    ]"#;
    assert_eq!(indices_of(&sinks_of(listing)), vec![Some(5), Some(3), Some(1)]);
    assert_eq!(sinks_of("[]"), Vec::<Json>::new());
    assert_eq!(sinks_of(r#"[{"properties":{"node.virtual":"true"}}]"#), Vec::<Json>::new());
}

#[test]
fn physical_sinks_filters_a_listing_that_is_at_hand() {
    let kept = physical_sinks(parse(LISTING).unwrap()).unwrap();
    assert_eq!(indices_of(&kept), vec![Some(1), Some(9)]);
}

#[test]
fn a_listing_that_is_no_array_is_refused() {
    for listing in ["{}", "null", "\"[]\"", "1", "{\"sinks\":[]}"] {
        assert_eq!(get_sinks(listing.as_bytes()), Err(SwitchError::NotAnArray), "{}", listing);
        assert_eq!(physical_sinks(parse(listing).unwrap()), Err(SwitchError::NotAnArray));
    }
}

#[test]
fn a_listing_that_cannot_be_read_is_refused() {
    assert_eq!(get_sinks(b"[{\"index\":1,"), Err(SwitchError::InvalidJson));
    assert_eq!(get_sinks(b""), Err(SwitchError::InvalidJson));
    assert_eq!(get_sinks(b"[\"\xfe\"]"), Err(SwitchError::InvalidUtf8));
}

#[test]
fn the_status_is_read_as_a_document() {
    let status = get_pactl_status(
        br#"{"server_name":"PulseAudio (on PipeWire)","default_sink_name":"alsa_output.usb"}"#,
    )
    .unwrap();
    assert_eq!(get_current_sink_name(&status), Ok("alsa_output.usb".to_string()));
    assert_eq!(get_pactl_status(b"Server Name: PulseAudio"), Err(SwitchError::InvalidJson));
    assert_eq!(
        get_pactl_status(b"{\"default_sink_name\":\"\xc0\"}"),
        Err(SwitchError::InvalidUtf8)
    );
    assert_eq!(get_pactl_status(b"[]"), Ok(Json::Array(vec![])));
}

#[test]
fn a_status_without_a_default_sink_name_is_refused() {
    let missing = SwitchError::MissingDefaultSink;
    let statuses = [
        "{}",
        "[]",
        "null",
        "\"a\"",
        r#"{"default_sink_name":null}"#,
        r#"{"default_sink_name":3}"#,
        r#"{"default_source_name":"a"}"#,
    ];
    for status in statuses {
        let status = parse(status).unwrap();
        let sinks = sinks_of(LISTING);
        assert_eq!(get_current_sink_name(&status), Err(missing));
        assert_eq!(get_current_sink_data(&status, &sinks), Err(missing));
        assert_eq!(get_current_sink_index(&status, &sinks), Err(missing));
        assert_eq!(get_next_sink_pulseaudio_index(&status, &sinks), Err(missing));
        assert_eq!(get_current_sink_description(&status, &sinks), Err(missing));
        assert_eq!(set_next_sink(&status, &sinks), Err(missing));
        assert_eq!(confirm_sink(&status), Err(missing));
    }
}

#[test]
fn the_default_sink_is_the_one_of_that_name() {
    let sinks = sinks_of(LISTING);
    assert_eq!(get_current_sink_data(&status_of("a"), &sinks), Ok(&sinks[0]));
    assert_eq!(get_current_sink_data(&status_of("c"), &sinks), Ok(&sinks[1]));
    assert_eq!(get_current_sink_index(&status_of("c"), &sinks), Ok(9));
}

#[test]
fn of_two_sinks_of_one_name_the_first_is_the_default() {
    let sinks = sinks_of(
        r#"[{"index":4,"name":"a"},{"index":5,"name":"a"},{"index":6,"name":"b"}]"#,
    );
    assert_eq!(get_current_sink_index(&status_of("a"), &sinks), Ok(4));
    assert_eq!(get_next_sink_pulseaudio_index(&status_of("a"), &sinks), Ok(5));
}

#[test]
fn a_default_sink_that_is_not_listed_is_refused() {
    let unknown = SwitchError::UnknownSink;
    let sinks = sinks_of(LISTING);
    assert_eq!(get_current_sink_data(&status_of("b"), &sinks), Err(unknown));
    assert_eq!(get_current_sink_data(&status_of("A"), &sinks), Err(unknown));
    assert_eq!(get_current_sink_index(&status_of("d"), &sinks), Err(unknown));
    assert_eq!(get_next_sink_pulseaudio_index(&status_of("d"), &sinks), Err(unknown));
    assert_eq!(get_current_sink_description(&status_of("d"), &sinks), Err(unknown));
    assert_eq!(set_next_sink(&status_of("d"), &sinks), Err(unknown));
    assert_eq!(get_current_sink_data(&status_of("a"), &Vec::new()), Err(unknown));
}

#[test]
fn a_nameless_sink_before_the_default_one_is_refused() {
    let nameless = SwitchError::MissingSinkName;
    let sinks = sinks_of(
        r#"[{"index":1,"name":"a"},{"index":2},{"index":3,"name":"c"},{"index":4,"name":7}]"#,
    );
    assert_eq!(get_current_sink_index(&status_of("a"), &sinks), Ok(1));
    assert_eq!(get_current_sink_data(&status_of("c"), &sinks), Err(nameless));
    assert_eq!(get_current_sink_index(&status_of("c"), &sinks), Err(nameless));
    assert_eq!(get_current_sink_description(&status_of("c"), &sinks), Err(nameless));
    assert_eq!(get_next_sink_pulseaudio_index(&status_of("d"), &sinks), Err(nameless));
    let late = sinks_of(r#"[{"index":1,"name":"a"},{"index":4,"name":7}]"#);
    assert_eq!(get_current_sink_index(&status_of("a"), &late), Ok(1));
    assert_eq!(get_current_sink_index(&status_of("b"), &late), Err(nameless));
}

#[test]
fn a_sink_without_an_index_is_refused_where_the_index_is_needed() {
    let unindexed = SwitchError::MissingSinkIndex;
    let sinks = sinks_of(
        r#"[
            {"index":1,"name":"a"},
            {"name":"b"},
            {"index":"3","name":"c"},
            {"index":-4,"name":"d"},
            {"index":5.0,"name":"e"}
        ]"#,
    );
    assert_eq!(get_current_sink_index(&status_of("a"), &sinks), Ok(1));
    for name in ["b", "c", "d", "e"] {
        assert_eq!(get_current_sink_index(&status_of(name), &sinks), Err(unindexed), "{}", name);
        assert_eq!(get_current_sink_description(&status_of(name), &sinks), Ok(name.to_string()));
    }
    assert_eq!(get_next_sink_pulseaudio_index(&status_of("a"), &sinks), Err(unindexed));
    assert_eq!(set_next_sink(&status_of("a"), &sinks), Err(unindexed));
}

#[test]
fn a_single_sink_follows_itself() {
    let sinks = sinks_of(r#"[{"index":42,"name":"only"}]"#);
    assert_eq!(get_next_sink_pulseaudio_index(&status_of("only"), &sinks), Ok(42));
    assert_eq!(set_next_sink(&status_of("only"), &sinks).unwrap().argument, "42");
}

#[test]
fn the_next_index_is_taken_from_the_order_of_the_listing() {
    let sinks = sinks_of(
        r#"[{"index":30,"name":"z"},{"index":4,"name":"m"},{"index":4294967296,"name":"a"}]"#,
    );
    assert_eq!(get_next_sink_pulseaudio_index(&status_of("z"), &sinks), Ok(4));
    assert_eq!(get_next_sink_pulseaudio_index(&status_of("m"), &sinks), Ok(4294967296));
    assert_eq!(get_next_sink_pulseaudio_index(&status_of("a"), &sinks), Ok(30));
    assert_eq!(set_next_sink(&status_of("m"), &sinks).unwrap().argument, "4294967296");
}

#[test]
fn the_index_is_sought_where_it_stands_first() {
    let sinks = sinks_of(
        r#"[{"index":1,"name":"a"},{"index":2,"name":"b"},{"index":1,"name":"c"}]"#,
    );
    assert_eq!(get_next_sink_pulseaudio_index(&status_of("c"), &sinks), Ok(2));
}

#[test]
fn as_many_steps_as_sinks_lead_back() {
    let sinks = sinks_of(
        r#"[
            {"index":5,"name":"e"},
            {"index":2,"name":"v","properties":{"node.virtual":"true"}},
            {"index":3,"name":"c"},
            {"index":8,"name":"h"},
            {"index":1,"name":"a"}
        ]"#,
    );
    assert_eq!(sinks.len(), 4);
    for start in &sinks {
        let begin = start.get("index").unwrap().as_u64().unwrap();
        let mut name = start.text_member("name").unwrap().to_string();
        let mut index = begin;
        for _ in 0..sinks.len() {
            index = get_next_sink_pulseaudio_index(&status_of(&name), &sinks).unwrap();
            let reached = sinks
                .iter()
                .find(|sink| sink.get("index").unwrap().as_u64() == Some(index))
                .unwrap();
            name = reached.text_member("name").unwrap().to_string();
        }
        assert_eq!(index, begin);
    }
}

#[test]
fn the_description_is_the_nickname_where_there_is_one() {
    let sinks = sinks_of(
        r#"[
            {"index":1,"name":"alsa_output.usb","properties":{"node.nick":"Headphones"}},
            {"index":2,"name":"alsa_output.pci","properties":{"node.name":"x"}}
        ]"#,
    );
    assert_eq!(
        get_current_sink_description(&status_of("alsa_output.usb"), &sinks),
        Ok("Headphones".to_string())
    );
}

#[test]
fn without_a_nickname_the_description_is_the_name() {
    let sinks = sinks_of(
        r#"[
            {"index":1,"name":"a","properties":{}},
            {"index":2,"name":"b"},
            {"index":3,"name":"c","properties":{"node.nick":7}},
            {"index":4,"name":"d","node.nick":"D"}
        ]"#,
    );
    for name in ["a", "b", "c", "d"] {
        assert_eq!(get_current_sink_description(&status_of(name), &sinks), Ok(name.to_string()));
    }
}

#[test]
fn the_confirmation_names_the_default_sink() {
    assert_eq!(
        confirm_sink(&status_of("alsa_output.usb")),
        Ok("Set sink to alsa_output.usb".to_string())
    );
    assert_eq!(confirm_sink(&status_of("")), Ok("Set sink to ".to_string()));
}
