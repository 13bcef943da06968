use bigsound::json::{parse_json, Json};
use bigsound::pipewire::{
    active_port, active_port_for_sink, current_default_sink_id, current_default_sink_name,
    default_sink_name, discover_bigsound_node_id, discover_in_run, discover_node_id, find_node,
    list_real_output_sinks, output_sinks, push_internal_value, push_outcome, push_verdict,
    set_output_target, tool_outcome, NodeError, ToolRun,
};

const DUMP: &str = r#"[
  {"id": 30, "type": "PipeWire:Interface:Core"},
  {"id": 41, "type": "PipeWire:Interface:Node",
   "info": {"props": {"node.name": "BigSound", "media.class": "Audio/Sink",
                      "node.description": "BigSound (DSP)"}}},
  {"id": 42, "type": "PipeWire:Interface:Node",
   "info": {"props": {"node.name": "BigSound.output", "media.class": "Stream/Output/Audio"}}},
  {"id": 50, "type": "PipeWire:Interface:Node",
   "info": {"props": {"node.name": "usb", "media.class": "Audio/Sink", "node.nick": "USB"}}},
  {"id": 51, "type": "PipeWire:Interface:Node",
   "info": {"props": {"node.name": "hdmi", "media.class": "Audio/Sink",
                      "node.description": "HDMI", "node.nick": "nick"}}},
  {"id": 52, "type": "PipeWire:Interface:Node",
   "info": {"props": {"node.name": "plain", "media.class": "Audio/Sink"}}},
  {"id": 53, "type": "PipeWire:Interface:Node",
   "info": {"props": {"node.name": "", "media.class": "Audio/Sink"}}},
  {"id": 54, "type": "PipeWire:Interface:Node", "info": {}},
  {"type": "PipeWire:Interface:Node", "info": {"props": {"node.name": "anonymous"}}},
  {"id": -1, "type": "PipeWire:Interface:Node", "info": {"props": {"node.name": "negative"}}},
  {"id": 4294967299, "type": "PipeWire:Interface:Node", "info": {"props": {"node.name": "large"}}}
]"#;

fn ran(stdout: &str) -> Option<ToolRun> {
    Some(ToolRun { success: true, stdout: stdout.as_bytes().to_vec(), stderr: b"noise".to_vec() })
}

fn failed(stdout: &str) -> Option<ToolRun> {
    Some(ToolRun { success: false, stdout: stdout.as_bytes().to_vec(), stderr: b"no\xff".to_vec() })
}

#[test]
fn nodes_in_a_run() {
    assert_eq!(discover_in_run(&ran(DUMP).unwrap(), "BigSound"), Ok(41));
    assert_eq!(
        discover_in_run(&failed(DUMP).unwrap(), "BigSound"),
        Err("pw-dump failed: no\u{fffd}".to_string())
    );
    assert_eq!(
        discover_in_run(&ran("{}").unwrap(), "BigSound"),
        Err("pw-dump didn't return a JSON array".to_string())
    );
    assert_eq!(
        discover_in_run(&ran(DUMP).unwrap(), "anonymous"),
        Err("anonymous node has no id".to_string())
    );
}

fn pair(a: &str, b: &str) -> (String, String) {
    (a.to_string(), b.to_string())
}

#[test]
fn nodes_are_found_by_name() {
    let dump = DUMP.as_bytes();
    assert_eq!(discover_bigsound_node_id(dump), Ok(41));
    assert_eq!(discover_node_id(dump, "BigSound.output"), Ok(42));
    assert_eq!(discover_node_id(dump, "usb"), Ok(50));
    assert_eq!(discover_node_id(dump, "large"), Ok(3));
}

#[test]
fn node_errors() {
    let dump = DUMP.as_bytes();
    assert_eq!(discover_node_id(b"not json", "usb"), Err(NodeError::NotJson));
    assert_eq!(discover_node_id(b"{}", "usb"), Err(NodeError::NotArray));
    assert_eq!(discover_node_id(dump, "anonymous"), Err(NodeError::NoId));
    assert_eq!(discover_node_id(dump, "negative"), Err(NodeError::NoId));
    assert_eq!(discover_node_id(dump, "missing"), Err(NodeError::NotFound));
    assert_eq!(NodeError::NotJson.message("x"), "parsing pw-dump JSON");
    assert_eq!(NodeError::NotArray.message("x"), "pw-dump didn't return a JSON array");
    assert_eq!(NodeError::NoId.message("x"), "x node has no id");
    assert_eq!(
        NodeError::NotFound.message("x"),
        "x node not found — make sure filter-chain.service is running \
         (systemctl --user status filter-chain.service)"
    );
}

#[test]
fn unnamed_nodes_have_the_empty_name() {
    assert_eq!(discover_node_id(DUMP.as_bytes(), ""), Ok(53));
}

#[test]
fn nodes_in_a_document() {
    let props = Json::Object(vec![("node.name".to_string(), Json::Text("BigSound".to_string()))]);
    let info = Json::Object(vec![("props".to_string(), props)]);
    let node = Json::Object(vec![
        ("type".to_string(), Json::Text("PipeWire:Interface:Node".to_string())),
        ("id".to_string(), Json::Number(Some(77))),
        ("info".to_string(), info),
    ]);
    let dump = Some(Json::Array(vec![Json::Null, node]));
    assert_eq!(find_node(&dump, "BigSound"), Ok(77));
    assert_eq!(find_node(&None, "BigSound"), Err(NodeError::NotJson));
    assert!(output_sinks(&dump).is_empty());
}

#[test]
fn outputs_are_sorted_by_description() {
    let sinks = list_real_output_sinks(&ran(DUMP));
    assert_eq!(sinks, vec![pair("hdmi", "HDMI"), pair("usb", "USB"), pair("plain", "plain")]);
    assert!(list_real_output_sinks(&None).is_empty());
    assert!(list_real_output_sinks(&failed(DUMP)).is_empty());
    assert!(list_real_output_sinks(&ran("[")).is_empty());
    assert!(list_real_output_sinks(&ran("{}")).is_empty());
}

#[test]
fn own_sink_is_not_offered() {
    let sinks = list_real_output_sinks(&ran(DUMP));
    assert!(sinks.iter().all(|(name, _)| name != "BigSound" && !name.is_empty()));
}

#[test]
fn documents_are_read() {
    let json = parse_json(br#"{"a": [1, -2, 2.5, "t", null, true], "b": {"c": "d"}}"#).unwrap();
    let items = json.get("a").unwrap().as_array().unwrap();
    assert_eq!(items.len(), 6);
    assert_eq!(items[0].as_u64(), Some(1));
    assert_eq!(items[1].as_u64(), None);
    assert_eq!(items[2].as_u64(), None);
    assert_eq!(items[3].as_str(), Some("t"));
    assert!(matches!(items[4], Json::Null));
    assert!(matches!(items[5], Json::Bool(true)));
    assert_eq!(json.get("b").unwrap().get_str("c"), Some("d"));
    assert!(json.get("x").is_none());
    assert!(json.as_array().is_none());
    assert!(parse_json(b"").is_none());
}

const INFO: &str = "Server Name: PulseAudio\nDefault Sink: alsa.speakers \nDefault Sink: second\n";
const LISTING: &str = "Sink #1\n\tName: other\n\tActive Port: wrong\n\
Sink #2\n\tName: alsa.speakers\n\tDescription: x\n\tActive Port: analog-output-headphones\n\
Sink #3\n\tName: third\n\tActive Port: (null)\n";

#[test]
fn default_sink() {
    assert_eq!(default_sink_name(INFO), Some("alsa.speakers".to_string()));
    assert_eq!(default_sink_name("Default sink: x\n"), None);
    assert_eq!(default_sink_name("  Default Sink: x\n"), None);
    assert_eq!(default_sink_name("Default Sink:"), Some(String::new()));
    assert_eq!(current_default_sink_name(&None), None);
    assert_eq!(
        current_default_sink_name(&Some(INFO.as_bytes().to_vec())),
        Some("alsa.speakers".to_string())
    );
}

#[test]
fn active_ports() {
    assert_eq!(active_port(LISTING, "alsa.speakers"), Some("analog-output-headphones".to_string()));
    assert_eq!(active_port(LISTING, "third"), None);
    assert_eq!(active_port(LISTING, "missing"), None);
    assert_eq!(active_port("Name: a\nActive Port: \n", "a"), None);
    assert_eq!(active_port("Name: a\nName: b\nActive Port: p\n", "a"), None);
    let twice = "Active Port: p\nName: a\nActive Port: q\nName: b\nName: a\nActive Port: r\n";
    assert_eq!(active_port(twice, "a"), Some("q".to_string()));
    assert_eq!(active_port("Name: a\nActive Port: (null)\nActive Port: q\n", "a"), None);
    assert_eq!(active_port_for_sink(&None, "a"), None);
}

#[test]
fn sink_identifiers() {
    let info = Some(INFO.as_bytes().to_vec());
    let listing = Some(LISTING.as_bytes().to_vec());
    assert_eq!(
        current_default_sink_id(&info, &listing),
        Some("alsa.speakers::analog-output-headphones".to_string())
    );
    assert_eq!(current_default_sink_id(&info, &None), Some("alsa.speakers".to_string()));
    assert_eq!(current_default_sink_id(&None, &listing), None);
}

#[test]
fn bytes_that_are_not_utf8_are_replaced() {
    let info = Some(b"Default Sink: a\xffb\n".to_vec());
    assert_eq!(current_default_sink_name(&info), Some("a\u{fffd}b".to_string()));
    assert_eq!(
        tool_outcome("pw-dump", false, b"bad \xff"),
        Err("pw-dump failed: bad \u{fffd}".to_string())
    );
    assert_eq!(tool_outcome("pw-dump", true, b"noise"), Ok(()));
}

#[test]
fn routing_arguments() {
    assert_eq!(
        set_output_target(57, Some("alsa.usb")),
        vec!["-n", "default", "57", "target.object", "\"alsa.usb\"", "Spa:String:JSON"]
    );
    assert_eq!(set_output_target(57, None), vec!["-n", "default", "-d", "57", "target.object"]);
}

#[test]
fn control_arguments() {
    assert_eq!(
        push_internal_value(41, "bigloud:amount", 0.5f64.to_bits(), "0.5"),
        Ok(["set-param", "41", "Props", "{ params = [ \"bigloud:amount\" 0.5 ] }"]
            .iter()
            .map(|s| s.to_string())
            .collect())
    );
    for (value, text) in [(f64::NAN, "NaN"), (f64::INFINITY, "inf"), (f64::NEG_INFINITY, "-inf")] {
        assert_eq!(
            push_internal_value(41, "bigloud:amount", value.to_bits(), text),
            Err(format!("refusing to push non-finite value {value} for bigloud:amount"))
        );
    }
}

#[test]
fn push_verdicts() {
    assert_eq!(push_verdict(true, "fine", ""), Ok(()));
    assert_eq!(
        push_verdict(true, "Error: \"x\"", ""),
        Err("pw-cli set-param failed: Error: \"x\"".to_string())
    );
    assert_eq!(
        push_verdict(true, "out", "Error: no global 4"),
        Err("pw-cli set-param failed: Error: no global 4".to_string())
    );
    assert_eq!(push_verdict(false, "out", " \n"), Err("pw-cli set-param failed: out".to_string()));
    assert_eq!(
        push_outcome(false, b"", b"\xfe!"),
        Err("pw-cli set-param failed: \u{fffd}!".to_string())
    );
    assert_eq!(push_outcome(true, b"", b""), Ok(()));
}
