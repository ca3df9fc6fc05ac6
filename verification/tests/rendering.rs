use shelly_exporter::clock::timestamp_now;
use shelly_exporter::exposition::{
    convert_to_prometheus, push_metric_line, read_telemetry, render_block, TelemetryReading,
};

const GOOD_SHELLY_DATA: &str = "{\"apower\":1.0,\"voltage\":2.0,\"current\":3.0,\"temperature\":{\"tC\":20.1,\"tF\":68.2},\"aenergy\":{\"total\":45645634.12}}";

fn document(text: &str) -> serde_json::Value {
    serde_json::from_str(text).unwrap()
}

fn reading(stamp: &str) -> TelemetryReading {
    read_telemetry(&document(GOOD_SHELLY_DATA), stamp.to_string())
}

fn assert_is_utc_millis_stamp(stamp: &str) {
    let chars: Vec<char> = stamp.chars().collect();
    assert!(chars.len() >= 24, "{stamp}");
    let (year, tail) = chars.split_at(chars.len() - 20);
    if year.len() == 4 {
        assert!(year.iter().all(|c| c.is_ascii_digit()), "{stamp}");
    } else {
        assert!(year[0] == '+' || year[0] == '-', "{stamp}");
        assert!(year[1..].iter().all(|c| c.is_ascii_digit()), "{stamp}");
    }
    let pattern: Vec<char> = "-dd-ddTdd:dd:dd.dddZ".chars().collect();
    for i in 0..20 {
        if pattern[i] == 'd' {
            assert!(tail[i].is_ascii_digit(), "{stamp}");
        } else {
            assert_eq!(tail[i], pattern[i], "{stamp}");
        }
    }
    assert!(!stamp.contains('\n'), "{stamp}");
}

#[test]
fn timestamp_now_is_utc_to_the_millisecond() {
    let stamp = timestamp_now();
    assert_is_utc_millis_stamp(&stamp);
    assert_eq!(stamp.len(), 24);
    assert!(stamp.as_str() >= "2024-01-01T00:00:00.000Z", "{stamp}");
}

#[test]
fn push_metric_line_appends_name_label_and_value() {
    let mut out = String::from("# ");
    push_metric_line(&mut out, "voltage", "kitchen", "231.4");
    assert_eq!(out, "# voltage{hostname=kitchen} 231.4");
    push_metric_line(&mut out, "", "", "");
    assert_eq!(out, "# voltage{hostname=kitchen} 231.4{hostname=} ");
}

#[test]
fn read_telemetry_takes_the_six_values_as_written() {
    let r = reading("2024-05-06T07:08:09.010Z");
    assert_eq!(r.timestamp, "2024-05-06T07:08:09.010Z");
    assert_eq!(r.power_watts, "1.0");
    assert_eq!(r.voltage, "2.0");
    assert_eq!(r.current_amps, "3.0");
    assert_eq!(r.temp_celsius, "20.1");
    assert_eq!(r.temp_fahrenheit, "68.2");
    assert_eq!(r.cumulative_energy_watts, "45645634.12");
}

#[test]
fn numbers_keep_their_digits() {
    let doc = document(
        "{\"apower\":1.50,\"voltage\":230,\"current\":-0.0,\"temperature\":{\"tC\":-273.150,\"tF\":0.1234567890123456789},\"aenergy\":{\"total\":18446744073709551616}}",
    );
    let r = read_telemetry(&doc, String::new());
    assert_eq!(r.power_watts, "1.50");
    assert_eq!(r.voltage, "230");
    assert_eq!(r.current_amps, "-0.0");
    assert_eq!(r.temp_celsius, "-273.150");
    assert_eq!(r.temp_fahrenheit, "0.1234567890123456789");
    assert_eq!(r.cumulative_energy_watts, "18446744073709551616");
}

#[test]
fn exponents_keep_their_digits_and_get_a_sign() {
    let doc = document("{\"apower\":1E2,\"voltage\":2.50e-3,\"current\":7e+10}");
    let r = read_telemetry(&doc, String::new());
    assert_eq!(r.power_watts, "1e+2");
    assert_eq!(r.voltage, "2.50e-3");
    assert_eq!(r.current_amps, "7e+10");
}

#[test]
fn missing_values_read_null() {
    let r = read_telemetry(&document("{}"), "t".to_string());
    assert_eq!(r.timestamp, "t");
    assert_eq!(r.power_watts, "null");
    assert_eq!(r.voltage, "null");
    assert_eq!(r.current_amps, "null");
    assert_eq!(r.temp_celsius, "null");
    assert_eq!(r.temp_fahrenheit, "null");
    assert_eq!(r.cumulative_energy_watts, "null");
}

#[test]
fn values_are_read_by_key_at_their_own_depth() {
    let doc = document(
        "{\"tC\":1,\"total\":2,\"temperature\":{\"apower\":3,\"tF\":4},\"aenergy\":7,\"current\":null}",
    );
    let r = read_telemetry(&doc, String::new());
    assert_eq!(r.power_watts, "null");
    assert_eq!(r.temp_celsius, "null");
    assert_eq!(r.temp_fahrenheit, "4");
    assert_eq!(r.cumulative_energy_watts, "null");
    assert_eq!(r.current_amps, "null");
}

#[test]
fn a_document_that_is_no_object_reads_null_throughout() {
    for text in ["[1,2,3]", "\"apower\"", "12", "null", "true"] {
        let r = read_telemetry(&document(text), String::new());
        assert_eq!(r.power_watts, "null");
        assert_eq!(r.temp_celsius, "null");
        assert_eq!(r.cumulative_energy_watts, "null");
    }
}

#[test]
fn values_that_are_no_numbers_are_printed_as_json() {
    let doc = document(
        "{\"apower\":\"high\",\"voltage\":true,\"current\":[1, 2],\"temperature\":{\"tC\":{\"a\": 1},\"tF\":\"6\\n8\"}}",
    );
    let r = read_telemetry(&doc, String::new());
    assert_eq!(r.power_watts, "\"high\"");
    assert_eq!(r.voltage, "true");
    assert_eq!(r.current_amps, "[1,2]");
    assert_eq!(r.temp_celsius, "{\"a\":1}");
    assert_eq!(r.temp_fahrenheit, "\"6\\n8\"");
}

#[test]
fn render_block_writes_seven_lines_in_fixed_order() {
    let block = render_block(&reading("2024-05-06T07:08:09.010Z"), &"alias1".to_string());
    assert_eq!(
        block,
        "current_datetime{hostname=alias1} 2024-05-06T07:08:09.010Z\n\
         power_watts{hostname=alias1} 1.0\n\
         voltage{hostname=alias1} 2.0\n\
         current_amps{hostname=alias1} 3.0\n\
         temperature_celsius{hostname=alias1} 20.1\n\
         temperature_fahrenheit{hostname=alias1} 68.2\n\
         running_total_power_consumed_watts{hostname=alias1} 45645634.12"
    );
}

#[test]
fn render_block_takes_every_field_as_it_is() {
    let r = TelemetryReading {
        timestamp: "T".to_string(),
        power_watts: "P".to_string(),
        voltage: "V".to_string(),
        current_amps: "C".to_string(),
        temp_celsius: "tc".to_string(),
        temp_fahrenheit: "tf".to_string(),
        cumulative_energy_watts: "E".to_string(),
    };
    let block = render_block(&r, &String::new());
    let lines: Vec<&str> = block.split('\n').collect();
    assert_eq!(
        lines,
        vec![
            "current_datetime{hostname=} T",
            "power_watts{hostname=} P",
            "voltage{hostname=} V",
            "current_amps{hostname=} C",
            "temperature_celsius{hostname=} tc",
            "temperature_fahrenheit{hostname=} tf",
            "running_total_power_consumed_watts{hostname=} E",
        ]
    );
}

#[test]
fn convert_to_prometheus_stamps_the_block_with_the_current_time() {
    let block = convert_to_prometheus(document(GOOD_SHELLY_DATA), &"alias1".to_string());
    let lines: Vec<&str> = block.split('\n').collect();
    assert_eq!(lines.len(), 7);
    let stamp = lines[0].strip_prefix("current_datetime{hostname=alias1} ").unwrap();
    assert_is_utc_millis_stamp(stamp);
    assert_eq!(lines[1], "power_watts{hostname=alias1} 1.0");
    assert_eq!(lines[2], "voltage{hostname=alias1} 2.0");
    assert_eq!(lines[3], "current_amps{hostname=alias1} 3.0");
    assert_eq!(lines[4], "temperature_celsius{hostname=alias1} 20.1");
    assert_eq!(lines[5], "temperature_fahrenheit{hostname=alias1} 68.2");
    assert_eq!(lines[6], "running_total_power_consumed_watts{hostname=alias1} 45645634.12");
}

#[test]
fn two_renderings_differ_in_the_first_line_at_most() {
    let alias = "plug".to_string();
    let first = convert_to_prometheus(document(GOOD_SHELLY_DATA), &alias);
    let second = convert_to_prometheus(document(GOOD_SHELLY_DATA), &alias);
    let a: Vec<&str> = first.split('\n').collect();
    let b: Vec<&str> = second.split('\n').collect();
    assert_eq!(a.len(), 7);
    assert_eq!(a[1..], b[1..]);
}

#[test]
fn convert_to_prometheus_renders_missing_values_as_null() {
    let block = convert_to_prometheus(document("{\"voltage\":229.9}"), &"p".to_string());
    let lines: Vec<&str> = block.split('\n').collect();
    assert_eq!(lines.len(), 7);
    assert_eq!(lines[1], "power_watts{hostname=p} null");
    assert_eq!(lines[2], "voltage{hostname=p} 229.9");
    assert_eq!(lines[3], "current_amps{hostname=p} null");
    assert_eq!(lines[4], "temperature_celsius{hostname=p} null");
    assert_eq!(lines[5], "temperature_fahrenheit{hostname=p} null");
    assert_eq!(lines[6], "running_total_power_consumed_watts{hostname=p} null");
}
