use shelly_exporter::fetch::{DeviceReply, FetchError};
use shelly_exporter::scrape::{resume, start, Progress, Scrape};
use shelly_exporter::server::{metrics_response, STATUS_INTERNAL_SERVER_ERROR, STATUS_OK};
use shelly_exporter::{get_metrics, ShellySmartPlug};

const GOOD_SHELLY_DATA: &str = "{\"apower\":1.0,\"voltage\":2.0,\"current\":3.0,\"temperature\":{\"tC\":20.1,\"tF\":68.2},\"aenergy\":{\"total\":45645634.12}}";

fn plug(url: &str, alias: &str) -> ShellySmartPlug {
    ShellySmartPlug { url: url.to_string(), alias: alias.to_string() }
}

fn good() -> DeviceReply {
    DeviceReply::Answered { status: 200, body: GOOD_SHELLY_DATA.as_bytes().to_vec() }
}

fn answered(status: u16, body: &str) -> DeviceReply {
    DeviceReply::Answered { status, body: body.as_bytes().to_vec() }
}

fn values_of(block_lines: &[&str], alias: &str) {
    assert!(block_lines[0].starts_with(&format!("current_datetime{{hostname={alias}}} ")));
    assert_eq!(block_lines[1], format!("power_watts{{hostname={alias}}} 1.0"));
    assert_eq!(block_lines[2], format!("voltage{{hostname={alias}}} 2.0"));
    assert_eq!(block_lines[3], format!("current_amps{{hostname={alias}}} 3.0"));
    assert_eq!(block_lines[4], format!("temperature_celsius{{hostname={alias}}} 20.1"));
    assert_eq!(block_lines[5], format!("temperature_fahrenheit{{hostname={alias}}} 68.2"));
    assert_eq!(
        block_lines[6],
        format!("running_total_power_consumed_watts{{hostname={alias}}} 45645634.12")
    );
}

#[test]
fn test_get_metrics() {
    let test_path = "http://127.0.0.1:1234/".to_string();
    let plugs: Vec<ShellySmartPlug> = vec![
        ShellySmartPlug { url: test_path.clone(), alias: "alias1".to_string() },
        ShellySmartPlug { url: test_path.clone(), alias: "alias2".to_string() },
    ];

    let actual = get_metrics(&plugs, &vec![good(), good()]).unwrap();
    let act_arr = actual.split("\n").collect::<Vec<&str>>();

    // The blocks are joined by one line break
    assert_eq!(act_arr.len(), 14);
    assert_eq!(act_arr[1], "power_watts{hostname=alias1} 1.0");
    assert_eq!(act_arr[6], "running_total_power_consumed_watts{hostname=alias1} 45645634.12");
    assert_eq!(act_arr[13], "running_total_power_consumed_watts{hostname=alias2} 45645634.12");

    assert!(actual.contains("power_watts{hostname=alias2} 1.0"));
    assert!(actual.contains("current_amps{hostname=alias1} 3.0"));
    assert!(actual.contains("temperature_celsius{hostname=alias1} 20.1"));
    assert!(actual.contains("temperature_fahrenheit{hostname=alias1} 68.2"));
    assert!(actual.contains("voltage{hostname=alias1} 2.0"));
    assert!(actual.contains("current_datetime{hostname=alias1}"));
}

#[test]
fn no_plugs_give_the_empty_text() {
    assert_eq!(get_metrics(&Vec::new(), &Vec::new()), Ok(String::new()));
}

#[test]
fn one_plug_gives_one_block_without_a_break_at_either_end() {
    let body = get_metrics(&vec![plug("http://a/", "solo")], &vec![good()]).unwrap();
    assert!(body.starts_with("current_datetime{hostname=solo} "));
    assert!(body.ends_with("running_total_power_consumed_watts{hostname=solo} 45645634.12"));
    let lines: Vec<&str> = body.split('\n').collect();
    assert_eq!(lines.len(), 7);
    values_of(&lines, "solo");
}

#[test]
fn blocks_follow_the_order_of_the_plugs() {
    let plugs = vec![plug("http://c/", "zeta"), plug("http://a/", "alpha"), plug("http://b/", "zeta")];
    let replies = vec![good(), answered(200, "{\"apower\":7}"), good()];
    let body = get_metrics(&plugs, &replies).unwrap();
    let lines: Vec<&str> = body.split('\n').collect();
    assert_eq!(lines.len(), 21);
    assert!(!body.contains("\n\n"));
    values_of(&lines[0..7], "zeta");
    assert_eq!(lines[8], "power_watts{hostname=alpha} 7");
    assert_eq!(lines[9], "voltage{hostname=alpha} null");
    values_of(&lines[14..21], "zeta");
}

#[test]
fn every_plug_has_seven_lines_whatever_its_document_holds() {
    let plugs = vec![plug("http://a/", "a"), plug("http://b/", "b"), plug("http://c/", "c")];
    let replies = vec![
        answered(200, "{\"apower\":\"one\\ntwo\",\"voltage\":[1,\n2],\n\"current\":{\"x\":\"\\r\\n\"}}"),
        answered(200, "\n\n[\n]\n"),
        answered(299, "{\"temperature\":{\"tC\":\"\\u000a\"},\"aenergy\":{\"total\":\n1.5\n}}"),
    ];
    let body = get_metrics(&plugs, &replies).unwrap();
    let lines: Vec<&str> = body.split('\n').collect();
    assert_eq!(lines.len(), 21);
    let names = [
        "current_datetime",
        "power_watts",
        "voltage",
        "current_amps",
        "temperature_celsius",
        "temperature_fahrenheit",
        "running_total_power_consumed_watts",
    ];
    for (i, label) in ["a", "b", "c"].iter().enumerate() {
        for (k, name) in names.iter().enumerate() {
            assert!(
                lines[7 * i + k].starts_with(&format!("{name}{{hostname={label}}} ")),
                "{}",
                lines[7 * i + k]
            );
        }
    }
    assert_eq!(lines[1], "power_watts{hostname=a} \"one\\ntwo\"");
    assert_eq!(lines[2], "voltage{hostname=a} [1,2]");
    assert_eq!(lines[3], "current_amps{hostname=a} {\"x\":\"\\r\\n\"}");
    assert_eq!(lines[8], "power_watts{hostname=b} null");
    assert_eq!(lines[18], "temperature_celsius{hostname=c} \"\\n\"");
    assert_eq!(lines[20], "running_total_power_consumed_watts{hostname=c} 1.5");
}

#[test]
fn a_label_with_a_line_break_adds_lines() {
    let body = get_metrics(&vec![plug("http://a/", "up\ndown")], &vec![good()]).unwrap();
    assert_eq!(body.split('\n').count(), 14);
}

#[test]
fn one_failing_plug_fails_the_whole_scrape() {
    let plugs = vec![plug("http://a/", "a"), plug("http://b/", "b"), plug("http://c/", "c")];
    for at in 0..3 {
        let mut replies = vec![good(), good(), good()];
        replies[at] = answered(500, GOOD_SHELLY_DATA);
        assert_eq!(get_metrics(&plugs, &replies), Err(FetchError::UnexpectedStatus));
        replies[at] = answered(200, "lol I'm not json");
        assert_eq!(get_metrics(&plugs, &replies), Err(FetchError::InvalidResponseBody));
        replies[at] = DeviceReply::Unreachable;
        assert_eq!(get_metrics(&plugs, &replies), Err(FetchError::ConnectionFailed));
    }
}

#[test]
fn the_first_failure_names_the_error() {
    let plugs = vec![plug("http://a/", "a"), plug("http://b/", "b"), plug("http://c/", "c")];
    let replies = vec![good(), answered(200, "nope"), DeviceReply::Unreachable];
    assert_eq!(get_metrics(&plugs, &replies), Err(FetchError::InvalidResponseBody));
    let replies = vec![DeviceReply::Unreachable, answered(200, "nope"), answered(404, "")];
    assert_eq!(get_metrics(&plugs, &replies), Err(FetchError::ConnectionFailed));
    let replies = vec![answered(302, ""), good(), DeviceReply::Unreachable];
    assert_eq!(get_metrics(&plugs, &replies), Err(FetchError::UnexpectedStatus));
}

#[test]
fn start_asks_for_the_first_plug() {
    let plugs = vec![plug("http://first/", "f"), plug("http://second/", "s")];
    match start(&plugs) {
        Progress::Fetch { scrape, url } => {
            assert_eq!(url, "http://first/");
            assert_eq!(scrape.rendered, 0);
            assert_eq!(scrape.text, "");
        }
        other => panic!("{other:?}"),
    }
}

#[test]
fn start_without_plugs_is_done_at_once() {
    match start(&Vec::new()) {
        Progress::Done { body } => assert_eq!(body, ""),
        other => panic!("{other:?}"),
    }
}

#[test]
fn resume_adds_a_block_and_asks_for_the_next_plug() {
    let plugs = vec![plug("http://first/", "f"), plug("http://second/", "s")];
    let scrape = match start(&plugs) {
        Progress::Fetch { scrape, .. } => scrape,
        other => panic!("{other:?}"),
    };
    let scrape = match resume(&plugs, scrape, &good()) {
        Progress::Fetch { scrape, url } => {
            assert_eq!(url, "http://second/");
            assert_eq!(scrape.rendered, 1);
            let lines: Vec<&str> = scrape.text.split('\n').collect();
            assert_eq!(lines.len(), 7);
            values_of(&lines, "f");
            scrape
        }
        other => panic!("{other:?}"),
    };
    match resume(&plugs, scrape, &good()) {
        Progress::Done { body } => {
            let lines: Vec<&str> = body.split('\n').collect();
            assert_eq!(lines.len(), 14);
            values_of(&lines[0..7], "f");
            values_of(&lines[7..14], "s");
        }
        other => panic!("{other:?}"),
    }
}

#[test]
fn resume_ends_the_scrape_on_a_reply_without_a_reading() {
    let plugs = vec![plug("http://first/", "f"), plug("http://second/", "s")];
    let halfway = || Scrape { rendered: 1, text: "so far".to_string() };
    match resume(&plugs, halfway(), &answered(404, GOOD_SHELLY_DATA)) {
        Progress::Failed { error } => assert_eq!(error, FetchError::UnexpectedStatus),
        other => panic!("{other:?}"),
    }
    match resume(&plugs, halfway(), &answered(200, "<html>")) {
        Progress::Failed { error } => assert_eq!(error, FetchError::InvalidResponseBody),
        other => panic!("{other:?}"),
    }
    match resume(&plugs, halfway(), &DeviceReply::Unreachable) {
        Progress::Failed { error } => assert_eq!(error, FetchError::ConnectionFailed),
        other => panic!("{other:?}"),
    }
}

#[test]
fn resume_joins_with_one_break_after_the_first_block() {
    let plugs = vec![plug("http://first/", "f"), plug("http://second/", "s")];
    match resume(&plugs, Scrape { rendered: 1, text: "so far".to_string() }, &good()) {
        Progress::Done { body } => {
            assert!(body.starts_with("so far\ncurrent_datetime{hostname=s} "));
            assert_eq!(body.split('\n').count(), 8);
        }
        other => panic!("{other:?}"),
    }
    match resume(&plugs, Scrape { rendered: 0, text: "so far".to_string() }, &good()) {
        Progress::Fetch { scrape, url } => {
            assert_eq!(url, "http://second/");
            assert!(scrape.text.starts_with("so farcurrent_datetime{hostname=f} "));
        }
        other => panic!("{other:?}"),
    }
}

#[test]
fn resume_with_every_plug_rendered_is_done() {
    let plugs = vec![plug("http://first/", "f")];
    match resume(&plugs, Scrape { rendered: 1, text: "all".to_string() }, &DeviceReply::Unreachable) {
        Progress::Done { body } => assert_eq!(body, "all"),
        other => panic!("{other:?}"),
    }
}

#[test]
fn metrics_response_sends_the_text_or_a_fixed_notice() {
    let ok = metrics_response(Ok("voltage{hostname=a} 1".to_string()));
    assert_eq!(ok.status, 200);
    assert_eq!(ok.status, STATUS_OK);
    assert_eq!(ok.body, "voltage{hostname=a} 1");
    assert_eq!(ok.content_type, "text/plain; charset=utf-8");
    let empty = metrics_response(Ok(String::new()));
    assert_eq!(empty.status, 200);
    assert_eq!(empty.body, "");
    for error in [
        FetchError::ConnectionFailed,
        FetchError::UnexpectedStatus,
        FetchError::InvalidResponseBody,
    ] {
        let failed = metrics_response(Err(error));
        assert_eq!(failed.status, 500);
        assert_eq!(failed.status, STATUS_INTERNAL_SERVER_ERROR);
        assert_eq!(failed.body, "Failed to process, please check application logs");
        assert_eq!(failed.content_type, "text/plain; charset=utf-8");
    }
}
