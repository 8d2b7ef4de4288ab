use london_pi_tube::api_requests::models::line_status::LineStatus;
use london_pi_tube::api_requests::models::prediction::{
    Prediction, PredictionList, ARRAY_MAX_SIZE_PREDICTION_MODEL,
};
use london_pi_tube::api_requests::models::prediction_timing::PredictionTiming;
use london_pi_tube::api_requests::models::status::Status;
use london_pi_tube::api_requests::request_prediction::request_prediction;
use london_pi_tube::api_requests::request_status::request_status;
use london_pi_tube::api_requests::request_task::{
    cycle_delay, deliver_predictions, request_task, DEFAULT_QUERY_DELAY_SECS,
};
use london_pi_tube::channels::{PredictionChannel, StatusChannel};
use london_pi_tube::text::Text;
use london_pi_tube::{TFL_API_DISRUPTION_CHANNEL_SIZE, TFL_API_PREDICTION_CHANNEL_SIZE};

fn text(s: &str) -> Text {
    Text::from_str(s).expect("the text fits")
}

fn timing() -> PredictionTiming {
    PredictionTiming {
        _type: text("Tfl.Api.Presentation.Entities.PredictionTiming"),
        countdown_server_adjustment: text("00:00:00"),
        source: text("0001-01-01T00:00:00"),
        insert: text("0001-01-01T00:00:00"),
        read: text("2024-05-01T14:32:05.000Z"),
        sent: text("2024-05-01T14:32:07Z"),
        received: text("0001-01-01T00:00:00"),
    }
}

fn prediction(vehicle: &str, platform: &str, seconds: u32) -> Prediction {
    Prediction {
        _type: text("Tfl.Api.Presentation.Entities.Prediction"),
        id: text("-1234567"),
        operation_type: 1,
        vehicle_id: text(vehicle),
        naptan_id: text("940GZZLUOXC"),
        station_name: text("Oxford Circus Underground Station"),
        line_id: text("victoria"),
        line_name: text("Victoria"),
        platform_name: text(platform),
        direction: text("outbound"),
        bearing: text(""),
        destination_naptan_id: text("940GZZLUWWL"),
        destination_name: text("Walthamstow Central Underground Station"),
        timestamp: text("2024-05-01T14:32:07.123Z"),
        time_to_station: seconds,
        current_location: text("Between Green Park and Oxford Circus"),
        towards: text("Walthamstow Central"),
        expected_arrival: text("2024-05-01T14:35:07Z"),
        time_to_live: text("2024-05-01T14:35:07Z"),
        mode_name: text("tube"),
        timing: timing(),
    }
}

fn list(items: &[(&str, &str, u32)]) -> PredictionList {
    let mut list = PredictionList::new();
    for (vehicle, platform, seconds) in items {
        assert!(list.push(prediction(vehicle, platform, *seconds)).is_ok());
    }
    list
}

fn vehicles(list: &PredictionList) -> Vec<(String, u32)> {
    let mut out = Vec::new();
    let mut i = 0;
    while let Some(p) = list.get(i) {
        out.push((p.vehicle_id.as_str().to_string(), p.time_to_station));
        i += 1;
    }
    out
}

fn waiting(channel: &mut PredictionChannel) -> Vec<String> {
    let mut out = Vec::new();
    while let Some(p) = channel.try_receive() {
        out.push(p.vehicle_id.as_str().to_string());
    }
    out
}

fn status(description: Option<&str>) -> Status {
    Status {
        _type: text("Tfl.Api.Presentation.Entities.Line"),
        line_statuses: description.map(|d| LineStatus {
            _type: text("Tfl.Api.Presentation.Entities.LineStatus"),
            status_severity_description: text(d),
        }),
    }
}

#[test]
fn prediction_list_holds_what_was_pushed() {
    let l = list(&[("201", "Northbound - Platform 3", 90), ("202", "Southbound - Platform 4", 30)]);
    assert_eq!(l.len(), 2);
    assert!(!l.is_empty());
    assert_eq!(vehicles(&l), vec![("201".to_string(), 90), ("202".to_string(), 30)]);
    assert!(l.get(2).is_none());
}

#[test]
fn prediction_list_starts_empty() {
    let l = PredictionList::new();
    assert_eq!(l.len(), 0);
    assert!(l.is_empty());
    assert!(l.get(0).is_none());
}

#[test]
fn prediction_list_hands_back_what_does_not_fit() {
    let mut l = PredictionList::new();
    for i in 0..ARRAY_MAX_SIZE_PREDICTION_MODEL {
        assert!(l.push(prediction("201", "Platform 3", i as u32)).is_ok());
    }
    let back = l.push(prediction("299", "Platform 3", 7)).expect_err("the list is full");
    assert_eq!(back.vehicle_id.as_str(), "299");
    assert_eq!(l.len(), ARRAY_MAX_SIZE_PREDICTION_MODEL);
}

#[test]
fn prediction_list_gives_its_first_item() {
    let mut l = list(&[("201", "Platform 3", 90), ("202", "Platform 3", 30)]);
    assert_eq!(l.take_first().expect("two wait").vehicle_id.as_str(), "201");
    assert_eq!(vehicles(&l), vec![("202".to_string(), 30)]);
    assert_eq!(l.take_first().expect("one waits").vehicle_id.as_str(), "202");
    assert!(l.take_first().is_none());
    assert!(l.is_empty());
}

#[test]
fn prediction_serves_platform_by_a_part_of_its_name() {
    let p = prediction("201", "Northbound - Platform 3", 90);
    assert!(p.serves_platform("Platform 3"));
    assert!(p.serves_platform("Northbound"));
    assert!(p.serves_platform(""));
    assert!(!p.serves_platform("Platform 4"));
    assert!(!p.serves_platform("northbound"));
}

#[test]
fn records_within_capacity() {
    assert!(prediction("201", "Northbound - Platform 3", 90).within_capacity());
    assert!(timing().within_capacity());
    assert!(status(Some("Good Service")).within_capacity());
    assert!(status(None).within_capacity());
}

#[test]
fn records_beyond_capacity() {
    let mut p = prediction("201", "Northbound - Platform 3", 90);
    p.vehicle_id = text(&"9".repeat(65));
    assert!(!p.within_capacity());
    let mut p = prediction("201", "Northbound - Platform 3", 90);
    p.direction = text(&"o".repeat(33));
    assert!(!p.within_capacity());
    let mut p = prediction("201", "Northbound - Platform 3", 90);
    p.current_location = text(&"o".repeat(128));
    assert!(p.within_capacity());
    p.timing.source = text(&"o".repeat(65));
    assert!(!p.within_capacity());
    assert!(!status(Some(&"s".repeat(33))).within_capacity());
    let l = LineStatus { _type: text(""), status_severity_description: text(&"s".repeat(32)) };
    assert!(l.within_capacity());
}

#[test]
fn request_prediction_keeps_the_platform_of_interest_only() {
    let l = list(&[
        ("201", "Northbound - Platform 3", 90),
        ("202", "Southbound - Platform 4", 30),
        ("203", "Northbound - Platform 3", 400),
    ]);
    let out = request_prediction(l, "Platform 3").expect("two are on the platform");
    assert_eq!(vehicles(&out), vec![("201".to_string(), 90), ("203".to_string(), 400)]);
    let mut i = 0;
    while let Some(p) = out.get(i) {
        assert!(p.serves_platform("Platform 3"));
        i += 1;
    }
}

#[test]
fn request_prediction_sorts_by_time_to_station() {
    let l = list(&[
        ("201", "Platform 3", 600),
        ("202", "Platform 3", 30),
        ("203", "Platform 3", 185),
    ]);
    let out = request_prediction(l, "Platform 3").expect("all are on the platform");
    assert_eq!(
        vehicles(&out),
        vec![("202".to_string(), 30), ("203".to_string(), 185), ("201".to_string(), 600)]
    );
}

#[test]
fn request_prediction_keeps_the_order_of_equal_times() {
    let l = list(&[
        ("201", "Platform 3", 120),
        ("202", "Platform 3", 60),
        ("203", "Platform 3", 120),
    ]);
    let out = request_prediction(l, "Platform 3").expect("all are on the platform");
    assert_eq!(
        vehicles(&out),
        vec![("202".to_string(), 60), ("201".to_string(), 120), ("203".to_string(), 120)]
    );
    let l = list(&[("a", "P", 5), ("b", "P", 5), ("c", "P", 5)]);
    let out = request_prediction(l, "P").expect("all are on the platform");
    assert_eq!(
        vehicles(&out),
        vec![("a".to_string(), 5), ("b".to_string(), 5), ("c".to_string(), 5)]
    );
}

#[test]
fn request_prediction_cuts_down_to_the_channel_before_it_sorts() {
    let l = list(&[
        ("201", "Platform 3", 500),
        ("202", "Platform 4", 1),
        ("203", "Platform 3", 400),
        ("204", "Platform 3", 300),
        ("205", "Platform 3", 200),
        ("206", "Platform 3", 100),
    ]);
    let out = request_prediction(l, "Platform 3").expect("five are on the platform");
    assert_eq!(out.len(), TFL_API_PREDICTION_CHANNEL_SIZE);
    assert_eq!(
        vehicles(&out),
        vec![("204".to_string(), 300), ("203".to_string(), 400), ("201".to_string(), 500)]
    );
}

#[test]
fn request_prediction_of_a_full_list() {
    let mut l = PredictionList::new();
    for i in 0..8u32 {
        assert!(l.push(prediction("201", "Platform 3", 800 - i)).is_ok());
    }
    let out = request_prediction(l, "Platform 3").expect("all are on the platform");
    assert_eq!(
        vehicles(&out),
        vec![("201".to_string(), 798), ("201".to_string(), 799), ("201".to_string(), 800)]
    );
}

#[test]
fn request_prediction_without_a_match_gives_nothing() {
    let l = list(&[("201", "Southbound - Platform 4", 90), ("202", "Platform 5", 30)]);
    assert!(request_prediction(l, "Platform 3").is_none());
}

#[test]
fn request_prediction_of_nothing_gives_nothing() {
    assert!(request_prediction(PredictionList::new(), "Platform 3").is_none());
    assert!(request_prediction(PredictionList::new(), "").is_none());
}

#[test]
fn nothing_on_the_platform_means_nothing_is_sent() {
    let l = list(&[("201", "Southbound - Platform 4", 90), ("202", "Platform 5", 30)]);
    let chosen = request_prediction(l, "Platform 3");
    let mut statuses = StatusChannel::new();
    let mut predictions = PredictionChannel::new();
    request_task(None, chosen, &mut statuses, &mut predictions);
    assert_eq!(predictions.len(), 0);
    assert!(predictions.try_receive().is_none());
    assert_eq!(statuses.len(), 0);
}

#[test]
fn request_status_hands_the_report_on() {
    let out = request_status(Some(status(Some("Minor Delays")))).expect("the report is usable");
    assert_eq!(
        out.line_statuses.expect("it has a status").status_severity_description.as_str(),
        "Minor Delays"
    );
}

#[test]
fn request_status_without_a_report() {
    assert!(request_status(None).is_none());
}

#[test]
fn request_status_without_a_line_status() {
    assert!(request_status(Some(status(None))).is_none());
}

#[test]
fn cycle_delay_skips_the_first_cycle() {
    assert_eq!(cycle_delay(false, None), None);
    assert_eq!(cycle_delay(false, Some(5)), None);
}

#[test]
fn cycle_delay_takes_the_configured_pause_or_thirty_seconds() {
    assert_eq!(DEFAULT_QUERY_DELAY_SECS, 30);
    assert_eq!(cycle_delay(true, None), Some(30));
    assert_eq!(cycle_delay(true, Some(5)), Some(5));
    assert_eq!(cycle_delay(true, Some(0)), Some(0));
}

#[test]
fn channel_is_first_in_first_out() {
    let mut c = PredictionChannel::new();
    assert!(c.deliver(prediction("201", "P", 1)));
    assert!(c.deliver(prediction("202", "P", 2)));
    assert_eq!(c.len(), 2);
    assert!(!c.is_full());
    assert_eq!(c.try_receive().expect("two wait").vehicle_id.as_str(), "201");
    assert!(c.deliver(prediction("203", "P", 3)));
    assert_eq!(waiting(&mut c), vec!["202".to_string(), "203".to_string()]);
    assert!(c.try_receive().is_none());
}

#[test]
fn channel_refuses_what_comes_when_it_is_full() {
    let mut c = PredictionChannel::new();
    for v in ["201", "202", "203"] {
        assert!(c.deliver(prediction(v, "P", 1)));
    }
    assert!(c.is_full());
    assert_eq!(c.len(), TFL_API_PREDICTION_CHANNEL_SIZE);
    assert!(!c.deliver(prediction("204", "P", 1)));
    assert_eq!(c.len(), TFL_API_PREDICTION_CHANNEL_SIZE);
    assert_eq!(waiting(&mut c), vec!["201".to_string(), "202".to_string(), "203".to_string()]);
}

#[test]
fn channel_clear_discards_what_waits() {
    let mut c = PredictionChannel::new();
    assert!(c.deliver(prediction("201", "P", 1)));
    c.clear();
    assert_eq!(c.len(), 0);
    assert!(c.try_receive().is_none());
    assert!(c.deliver(prediction("202", "P", 1)));
    assert_eq!(c.len(), 1);
}

#[test]
fn status_channel_holds_one_report() {
    let mut c = StatusChannel::new();
    assert_eq!(c.len(), 0);
    assert!(!c.is_full());
    assert!(c.deliver(status(Some("Good Service"))));
    assert!(c.is_full());
    assert_eq!(c.len(), TFL_API_DISRUPTION_CHANNEL_SIZE);
    assert!(!c.deliver(status(Some("Severe Delays"))));
    assert_eq!(c.len(), 1);
    let got = c.try_receive().expect("one waits");
    assert_eq!(
        got.line_statuses.expect("it has a status").status_severity_description.as_str(),
        "Good Service"
    );
    assert!(c.try_receive().is_none());
    assert!(c.deliver(status(Some("Part Closure"))));
    c.clear();
    assert_eq!(c.len(), 0);
    assert!(c.try_receive().is_none());
}

#[test]
fn deliver_predictions_sends_all_when_there_is_room() {
    let mut c = PredictionChannel::new();
    let sent = deliver_predictions(&mut c, list(&[("201", "P", 1), ("202", "P", 2)]));
    assert_eq!(sent, 2);
    assert_eq!(waiting(&mut c), vec!["201".to_string(), "202".to_string()]);
}

#[test]
fn deliver_predictions_drops_what_finds_the_channel_full() {
    let mut c = PredictionChannel::new();
    assert!(c.deliver(prediction("100", "P", 1)));
    assert!(c.deliver(prediction("101", "P", 1)));
    let sent = deliver_predictions(&mut c, list(&[("201", "P", 1), ("202", "P", 2), ("203", "P", 3)]));
    assert_eq!(sent, 1);
    assert_eq!(c.len(), TFL_API_PREDICTION_CHANNEL_SIZE);
    assert_eq!(waiting(&mut c), vec!["100".to_string(), "101".to_string(), "201".to_string()]);
}

#[test]
fn deliver_predictions_to_a_full_channel_sends_nothing() {
    let mut c = PredictionChannel::new();
    for v in ["100", "101", "102"] {
        assert!(c.deliver(prediction(v, "P", 1)));
    }
    let sent = deliver_predictions(&mut c, list(&[("201", "P", 1), ("202", "P", 2)]));
    assert_eq!(sent, 0);
    assert_eq!(waiting(&mut c), vec!["100".to_string(), "101".to_string(), "102".to_string()]);
}

#[test]
fn deliver_predictions_of_nothing() {
    let mut c = PredictionChannel::new();
    assert_eq!(deliver_predictions(&mut c, PredictionList::new()), 0);
    assert_eq!(c.len(), 0);
}

#[test]
fn request_task_hands_on_status_and_predictions() {
    let mut statuses = StatusChannel::new();
    let mut predictions = PredictionChannel::new();
    request_task(
        Some(status(Some("Good Service"))),
        Some(list(&[("201", "P", 1), ("202", "P", 2)])),
        &mut statuses,
        &mut predictions,
    );
    assert_eq!(statuses.len(), 1);
    assert_eq!(waiting(&mut predictions), vec!["201".to_string(), "202".to_string()]);
}

#[test]
fn request_task_keeps_what_waits_when_a_channel_is_full() {
    let mut statuses = StatusChannel::new();
    let mut predictions = PredictionChannel::new();
    request_task(
        Some(status(Some("Good Service"))),
        Some(list(&[("201", "P", 1), ("202", "P", 2), ("203", "P", 3)])),
        &mut statuses,
        &mut predictions,
    );
    request_task(
        Some(status(Some("Severe Delays"))),
        Some(list(&[("301", "P", 1)])),
        &mut statuses,
        &mut predictions,
    );
    assert_eq!(statuses.len(), 1);
    let got = statuses.try_receive().expect("one waits");
    assert_eq!(
        got.line_statuses.expect("it has a status").status_severity_description.as_str(),
        "Good Service"
    );
    assert_eq!(
        waiting(&mut predictions),
        vec!["201".to_string(), "202".to_string(), "203".to_string()]
    );
}

#[test]
fn request_task_with_nothing_to_hand_on() {
    let mut statuses = StatusChannel::new();
    let mut predictions = PredictionChannel::new();
    assert!(predictions.deliver(prediction("100", "P", 1)));
    request_task(None, None, &mut statuses, &mut predictions);
    assert_eq!(statuses.len(), 0);
    assert_eq!(waiting(&mut predictions), vec!["100".to_string()]);
}
