use mirakc_core::command::{render_command, shape_check, RenderError};
use mirakc_core::eit_feeder::{group_services_into_channels, ChannelConfig, ChannelType, EitCollector, EitFeeder, EpgService};

fn service(nid: u16, sid: u16, name: &str) -> EpgService {
    EpgService {
        nid,
        sid,
        channel: ChannelConfig {
            name: name.to_string(),
            channel_type: ChannelType::GR,
            channel: format!("ch-{}", nid),
            extra_args: String::new(),
        },
    }
}

#[test]
fn services_group_by_network_in_first_seen_order() {
    let services = vec![
        service(1, 100, "A"),
        service(2, 200, "B"),
        service(1, 101, "A-again"),
        service(2, 201, "B-again"),
        service(3, 300, "C"),
    ];
    let channels = group_services_into_channels(&services);
    assert_eq!(channels.len(), 3);
    // Channel data comes from the first service of each network; services
    // accumulate in report order.
    assert_eq!(channels[0].name, "A");
    assert_eq!(channels[0].services, vec![100, 101]);
    assert_eq!(channels[1].name, "B");
    assert_eq!(channels[1].services, vec![200, 201]);
    assert_eq!(channels[2].name, "C");
    assert_eq!(channels[2].services, vec![300]);
    assert!(channels[0].excluded_services.is_empty());
}

#[test]
fn feeder_builds_a_collector_over_the_grouped_channels() {
    let feeder = EitFeeder::new("decode{{#sids}} --sid {{.}}{{/sids}}".to_string());
    let services = vec![service(7, 70, "seven"), service(7, 71, "seven")];
    let collector = feeder.feed_eit_sections(&services);
    assert_eq!(collector.command, "decode{{#sids}} --sid {{.}}{{/sids}}");
    assert_eq!(collector.channels.len(), 1);
    assert_eq!(collector.channels[0].services, vec![70, 71]);
}

#[test]
fn collector_new_keeps_command_and_channels() {
    let collector = EitCollector::new("cmd".to_string(), Vec::new());
    assert_eq!(collector.command, "cmd");
    assert!(collector.channels.is_empty());
}

#[test]
fn render_interpolates_both_bindings() {
    let template = "decode{{#sids}} --sid {{.}}{{/sids}}{{#xsids}} --xsid {{.}}{{/xsids}}";
    let rendered = render_command(template, &vec![101, 102], &vec![9]).unwrap();
    assert_eq!(rendered, "decode --sid 101 --sid 102 --xsid 9");
}

#[test]
fn render_with_empty_bindings_drops_the_sections() {
    let rendered = render_command("run{{#sids}} {{.}}{{/sids}} now", &Vec::new(), &Vec::new());
    assert_eq!(rendered.unwrap(), "run now");
}

#[test]
fn template_using_an_array_as_a_variable_is_rejected() {
    // A bare `{{sids}}` tag would hand the engine an array where it expects a
    // printable value; the shape check refuses it up front.
    let r = render_command("decode {{sids}}", &vec![1], &Vec::new());
    assert_eq!(r, Err(RenderError::BadShape));
}

#[test]
fn unclosed_section_is_rejected() {
    assert!(!shape_check(b"decode{{#sids}} {{.}}"));
    assert!(!shape_check(b"decode {{.}}"));
    assert!(shape_check(b"plain text without tags"));
    assert!(shape_check(b"a {b} c } {"));
}
