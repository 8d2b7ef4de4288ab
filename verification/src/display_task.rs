//! Composition of what the display shows: a header, one entry for each
//! arrival, and a footer.

use vstd::prelude::*;
use vstd::string::*;

use crate::api_requests::models::prediction::{Prediction, PredictionList};
use crate::api_requests::models::status::Status;
use crate::channels::{PredictionChannel, StatusChannel};
use crate::string_utilities::{
    first_two_words,
    insert_linebreaks_inplace,
    split_iso8601_timestamp,
    time_part,
    two_words,
    wrapped,
};
use crate::text::{Text, TEXT_CAPACITY};

verus! {

/// What a buffer holds after the pieces were appended to it one by one. A
/// piece that does not fit any more ends the writing: it and the pieces after
/// it are left out.
pub open spec fn appended(buffer: Seq<u8>, pieces: Seq<Seq<u8>>) -> Seq<u8>
    decreases pieces.len(),
{
    if pieces.len() == 0 {
        buffer
    } else if buffer.len() + pieces[0].len() <= TEXT_CAPACITY {
        appended(buffer + pieces[0], pieces.drop_first())
    } else {
        buffer
    }
}

/// The bytes of each of the strings.
pub open spec fn bytes_of(pieces: Seq<&str>) -> Seq<Seq<u8>> {
    pieces.map_values(|piece: &str| piece.spec_bytes())
}

/// Appended pieces that fit altogether stand in the buffer one after the
/// other.
pub proof fn lemma_appended_fits(buffer: Seq<u8>, pieces: Seq<Seq<u8>>)
    requires
        buffer.len() + pieces.flatten().len() <= TEXT_CAPACITY,
    ensures
        appended(buffer, pieces) == buffer + pieces.flatten(),
    decreases pieces.len(),
{
    broadcast use vstd::seq_lib::group_seq_properties;

    if pieces.len() == 0 {
        assert(pieces.flatten() =~= Seq::<u8>::empty());
        assert(buffer + pieces.flatten() =~= buffer);
    } else {
        assert(pieces.flatten() =~= pieces[0] + pieces.drop_first().flatten());
        lemma_appended_fits(buffer + pieces[0], pieces.drop_first());
        assert((buffer + pieces[0]) + pieces.drop_first().flatten() =~= buffer + pieces.flatten());
    }
}

/// Appends the pieces to `text` one by one, up to the first that does not
/// fit.
fn append_all(text: &mut Text, pieces: &[&str])
    ensures
        final(text)@ == appended(old(text)@, bytes_of(pieces@)),
{
    let mut k: usize = 0;
    assert(bytes_of(pieces@).skip(0) =~= bytes_of(pieces@));
    while k < pieces.len()
        invariant
            k <= pieces@.len(),
            appended(text@, bytes_of(pieces@).skip(k as int)) == appended(
                old(text)@,
                bytes_of(pieces@),
            ),
        ensures
            text@ == appended(old(text)@, bytes_of(pieces@)),
        decreases pieces@.len() - k,
    {
        let ghost rest = bytes_of(pieces@).skip(k as int);
        assert(rest[0] == pieces@[k as int].spec_bytes());
        assert(rest.drop_first() =~= bytes_of(pieces@).skip(k + 1));
        if !text.push_str(pieces[k]) {
            break ;
        }
        k += 1;
    }
}

/// The header: the line and its status, the station, and the platform, each
/// on a line of its own.
pub open spec fn header_text(
    line_name: Seq<u8>,
    line_status: Seq<u8>,
    station_name: Seq<u8>,
    platform_name: Seq<u8>,
) -> Seq<u8> {
    appended(
        Seq::<u8>::empty(),
        seq![
            line_name,
            " Line - ".spec_bytes(),
            line_status,
            "\n".spec_bytes(),
            station_name,
            "\n".spec_bytes(),
            platform_name,
            "\n".spec_bytes(),
        ],
    )
}

/// The footer: when the data was last brought up to date, as the time of day
/// of `timestamp`.
pub open spec fn footer_text(timestamp: Seq<u8>) -> Seq<u8> {
    appended(Seq::<u8>::empty(), seq!["Last updated at: ".spec_bytes(), time_part(timestamp)])
}

/// Composes the header of a frame.
pub fn make_header(line_name: &str, line_status: &str, station_name: &str, platform_name: &str) -> (header:
    Text)
    ensures
        header@ == header_text(
            line_name.spec_bytes(),
            line_status.spec_bytes(),
            station_name.spec_bytes(),
            platform_name.spec_bytes(),
        ),
{
    let mut header = Text::new();
    let pieces = [
        line_name,
        " Line - ",
        line_status,
        "\n",
        station_name,
        "\n",
        platform_name,
        "\n",
    ];
    assert(bytes_of(pieces@) =~= seq![
        line_name.spec_bytes(),
        " Line - ".spec_bytes(),
        line_status.spec_bytes(),
        "\n".spec_bytes(),
        station_name.spec_bytes(),
        "\n".spec_bytes(),
        platform_name.spec_bytes(),
        "\n".spec_bytes(),
    ]);
    append_all(&mut header, &pieces);
    header
}

/// Composes the footer of a frame from the timestamp of the data.
pub fn make_footer(last_update_iso8601_ts: &str) -> (footer: Text)
    ensures
        footer@ == footer_text(last_update_iso8601_ts.spec_bytes()),
{
    let (_, time) = split_iso8601_timestamp(last_update_iso8601_ts);
    let mut footer = Text::new();
    let pieces = ["Last updated at: ", time];
    assert(bytes_of(pieces@) =~= seq![
        "Last updated at: ".spec_bytes(),
        time_part(last_update_iso8601_ts.spec_bytes()),
    ]);
    append_all(&mut footer, &pieces);
    footer
}

/// The digits of `n` in base ten, as bytes, the highest first.
pub open spec fn decimal(n: nat) -> Seq<u8>
    decreases n,
{
    if n < 10 {
        seq![(0x30 + n) as u8]
    } else {
        decimal(n / 10).push((0x30 + n % 10) as u8)
    }
}

/// A number below two to the power of 32 has at most ten digits.
pub proof fn lemma_decimal_len(n: nat)
    requires
        n <= u32::MAX,
    ensures
        1 <= decimal(n).len() <= 10,
{
    reveal_with_fuel(decimal, 11);
}

/// The digit `d` as a string.
fn digit_str(d: u8) -> (r: &'static str)
    requires
        d < 10,
    ensures
        r.spec_bytes() == seq![(0x30 + d) as u8],
{
    let r = match d {
        0 => "0",
        1 => "1",
        2 => "2",
        3 => "3",
        4 => "4",
        5 => "5",
        6 => "6",
        7 => "7",
        8 => "8",
        _ => "9",
    };
    proof {
        reveal_strlit("0");
        reveal_strlit("1");
        reveal_strlit("2");
        reveal_strlit("3");
        reveal_strlit("4");
        reveal_strlit("5");
        reveal_strlit("6");
        reveal_strlit("7");
        reveal_strlit("8");
        reveal_strlit("9");
        is_ascii_spec_bytes(r);
        assert(r.spec_bytes() =~= seq![(0x30 + d) as u8]);
    }
    r
}

/// Appends the digits of `n` in base ten.
fn push_decimal(text: &mut Text, n: u32)
    requires
        old(text)@.len() + decimal(n as nat).len() <= TEXT_CAPACITY,
    ensures
        final(text)@ == old(text)@ + decimal(n as nat),
    decreases n,
{
    if n >= 10 {
        push_decimal(text, n / 10);
    }
    let went = text.push_str(digit_str((n % 10) as u8));
    assert(went);
    assert(text@ =~= old(text)@ + decimal(n as nat));
}

/// How long until an arrival, in words: under a minute, under two minutes,
/// or the number of whole minutes.
pub open spec fn countdown_text(seconds: u32) -> Seq<u8> {
    if seconds < 60 {
        "< 1 min".spec_bytes()
    } else if seconds < 120 {
        "< 2 mins".spec_bytes()
    } else {
        decimal((seconds / 60) as nat) + " mins".spec_bytes()
    }
}

/// The label that says how long it is until an arrival in `seconds` seconds.
pub fn countdown_label(seconds: u32) -> (label: Text)
    ensures
        label@ == countdown_text(seconds),
{
    let mut label = Text::new();
    proof {
        reveal_strlit("< 1 min");
        reveal_strlit("< 2 mins");
        reveal_strlit(" mins");
        is_ascii_spec_bytes("< 1 min");
        is_ascii_spec_bytes("< 2 mins");
        is_ascii_spec_bytes(" mins");
    }
    if seconds < 60 {
        let went = label.push_str("< 1 min");
        assert(went);
        assert(label@ =~= "< 1 min".spec_bytes());
    } else if seconds < 120 {
        let went = label.push_str("< 2 mins");
        assert(went);
        assert(label@ =~= "< 2 mins".spec_bytes());
    } else {
        proof {
            lemma_decimal_len((seconds / 60) as nat);
        }
        push_decimal(&mut label, seconds / 60);
        let went = label.push_str(" mins");
        assert(went);
        assert(label@ =~= countdown_text(seconds));
    }
    label
}

/// The title shown while no data has arrived yet.
pub fn make_splash() -> (splash: Text)
    ensures
        splash@ == "its3mile/london-pi-tube".spec_bytes(),
{
    let mut splash = Text::new();
    proof {
        reveal_strlit("its3mile/london-pi-tube");
        is_ascii_spec_bytes("its3mile/london-pi-tube");
    }
    let went = splash.push_str("its3mile/london-pi-tube");
    assert(went);
    assert(splash@ =~= "its3mile/london-pi-tube".spec_bytes());
    splash
}

/// Number of glyphs in a line of the location text: as many as fit across the
/// display, less a margin of two.
pub fn line_width(display_width: u32, glyph_width: u32) -> (width: usize)
    requires
        glyph_width > 0,
        display_width / glyph_width >= 2,
    ensures
        width == display_width / glyph_width - 2,
{
    (display_width / glyph_width - 2) as usize
}

/// How far from the left edge the countdown ends: a tenth of the width of the
/// display short of the right edge.
pub fn countdown_offset(display_width: u32) -> (offset: u32)
    ensures
        offset == display_width - display_width / 10,
{
    display_width - display_width / 10
}

/// The three texts that show one arrival.
pub struct BodyObject {
    /// The vehicle and where it goes.
    pub destination: Text,
    /// How long until it arrives.
    pub countdown: Text,
    /// Where it is now, wrapped to the width of the display.
    pub location: Text,
}

/// The destination line of an arrival: the vehicle in brackets, then the
/// first two words of the destination.
pub open spec fn destination_text(vehicle_id: Seq<u8>, destination_name: Seq<u8>) -> Seq<u8> {
    appended(
        Seq::<u8>::empty(),
        seq![
            "(".spec_bytes(),
            vehicle_id,
            ") ".spec_bytes(),
            two_words(destination_name),
            "\n".spec_bytes(),
        ],
    )
}

/// The location lines of an arrival: a caption and the location, wrapped to
/// `width` bytes a line, and a line break at the end.
pub open spec fn location_text(current_location: Seq<u8>, width: int) -> Seq<u8> {
    let line = appended(
        Seq::<u8>::empty(),
        seq!["Current Location: ".spec_bytes(), current_location],
    );
    appended(wrapped(line, width, TEXT_CAPACITY as int), seq!["\n".spec_bytes()])
}

/// `entry` shows the arrival `prediction` on lines of `width` bytes.
pub open spec fn shows(entry: BodyObject, prediction: Prediction, width: int) -> bool {
    &&& entry.destination@ == destination_text(
        prediction.vehicle_id@,
        prediction.destination_name@,
    )
    &&& entry.countdown@ == countdown_text(prediction.time_to_station)
    &&& entry.location@ == location_text(prediction.current_location@, width)
}

/// Composes the texts that show one arrival.
pub fn make_body_object(prediction: &Prediction, line_width: usize) -> (entry: BodyObject)
    ensures
        shows(entry, *prediction, line_width as int),
{
    let destination_name = first_two_words(prediction.destination_name.as_str());
    let mut destination = Text::new();
    let pieces = ["(", prediction.vehicle_id.as_str(), ") ", destination_name, "\n"];
    assert(bytes_of(pieces@) =~= seq![
        "(".spec_bytes(),
        prediction.vehicle_id@,
        ") ".spec_bytes(),
        two_words(prediction.destination_name@),
        "\n".spec_bytes(),
    ]);
    append_all(&mut destination, &pieces);

    let countdown = countdown_label(prediction.time_to_station);

    let mut location = Text::new();
    let caption = ["Current Location: ", prediction.current_location.as_str()];
    assert(bytes_of(caption@) =~= seq![
        "Current Location: ".spec_bytes(),
        prediction.current_location@,
    ]);
    append_all(&mut location, &caption);
    insert_linebreaks_inplace(&mut location, line_width);
    let end = ["\n"];
    assert(bytes_of(end@) =~= seq!["\n".spec_bytes()]);
    append_all(&mut location, &end);

    BodyObject { destination, countdown, location }
}

/// What the display shows at one time.
pub struct Frame {
    /// The line, its status, the station and the platform.
    pub header: Text,
    /// One entry for each arrival, the soonest first.
    pub body: Vec<BodyObject>,
    /// When the data was last brought up to date.
    pub footer: Text,
}

/// `frame` shows `predictions` under the status `status_description`: the
/// header and the footer come from the first prediction, and each prediction
/// has its entry, in order.
pub open spec fn frame_shows(
    frame: Frame,
    status_description: Seq<u8>,
    predictions: Seq<Prediction>,
    width: int,
) -> bool {
    &&& predictions.len() > 0
    &&& frame.header@ == header_text(
        predictions[0].line_name@,
        status_description,
        predictions[0].station_name@,
        predictions[0].platform_name@,
    )
    &&& frame.body@.len() == predictions.len()
    &&& forall|i: int|
        0 <= i < predictions.len() ==> shows(#[trigger] frame.body@[i], predictions[i], width)
    &&& frame.footer@ == footer_text(predictions[0].timestamp@)
}

/// Composes the frame that shows `predictions` under `status`. There is no
/// frame without a prediction or without a status of the line.
pub fn compose_frame(status: &Status, predictions: &PredictionList, line_width: usize) -> (r:
    Option<Frame>)
    ensures
        r.is_some() == (predictions@.len() > 0 && status.line_statuses.is_some()),
        r.is_some() ==> frame_shows(
            r.unwrap(),
            status.line_statuses.unwrap().status_severity_description@,
            predictions@,
            line_width as int,
        ),
{
    let first = match predictions.get(0) {
        Some(first) => first,
        None => {
            return None;
        },
    };
    let line_status = match &status.line_statuses {
        Some(line_status) => line_status,
        None => {
            return None;
        },
    };
    let header = make_header(
        first.line_name.as_str(),
        line_status.status_severity_description.as_str(),
        first.station_name.as_str(),
        first.platform_name.as_str(),
    );
    let mut body: Vec<BodyObject> = Vec::new();
    let count = predictions.len();
    let mut k: usize = 0;
    while k < count
        invariant
            k <= count,
            count == predictions@.len(),
            body@.len() == k,
            forall|i: int| 0 <= i < k ==> shows(#[trigger] body@[i], predictions@[i], line_width as int),
        decreases count - k,
    {
        let entry = make_body_object(predictions.get(k).unwrap(), line_width);
        body.push(entry);
        k += 1;
    }
    let footer = make_footer(first.timestamp.as_str());
    Some(Frame { header, body, footer })
}

/// Takes out of the channel all the predictions that wait in it, in the
/// order in which they were sent.
pub fn drain_predictions(channel: &mut PredictionChannel) -> (predictions: PredictionList)
    ensures
        predictions@ == old(channel)@,
        final(channel)@ == Seq::<Prediction>::empty(),
{
    let mut predictions = PredictionList::new();
    let _ = channel.len();
    assert(old(channel)@ =~= predictions@ + channel@);
    loop
        invariant
            old(channel)@ == predictions@ + channel@,
            old(channel)@.len() <= crate::TFL_API_PREDICTION_CHANNEL_SIZE,
        ensures
            predictions@ == old(channel)@,
            channel@ == Seq::<Prediction>::empty(),
        decreases channel@.len(),
    {
        let ghost waiting = channel@;
        let ghost taken = predictions@;
        match channel.try_receive() {
            Some(prediction) => {
                let kept = predictions.push(prediction);
                assert(kept.is_ok());
                assert(taken.push(waiting[0]) + waiting.drop_first() =~= taken + waiting);
            },
            None => {
                assert(channel@ =~= Seq::<Prediction>::empty());
                assert(predictions@ + channel@ =~= predictions@);
                break ;
            },
        }
    }
    predictions
}

/// One turn of the display, once a status has arrived and predictions wait:
/// takes all the predictions that wait, and composes the frame that shows
/// them under the status.
pub fn display_task(status: &Status, prediction_channel: &mut PredictionChannel, line_width: usize) -> (r:
    Option<Frame>)
    ensures
        final(prediction_channel)@ == Seq::<Prediction>::empty(),
        r.is_some() == (old(prediction_channel)@.len() > 0 && status.line_statuses.is_some()),
        r.is_some() ==> frame_shows(
            r.unwrap(),
            status.line_statuses.unwrap().status_severity_description@,
            old(prediction_channel)@,
            line_width as int,
        ),
{
    let predictions = drain_predictions(prediction_channel);
    compose_frame(status, &predictions, line_width)
}

/// Discards what still waits in the two channels, so that nothing of one
/// turn of the display reaches the next.
pub fn clear_channels(prediction_channel: &mut PredictionChannel, status_channel: &mut StatusChannel)
    ensures
        final(prediction_channel)@ == Seq::<Prediction>::empty(),
        final(status_channel)@ == Seq::<Status>::empty(),
{
    prediction_channel.clear();
    status_channel.clear();
}

} // verus!
