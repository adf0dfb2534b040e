//! Alerts: what an alert about an event says, how urgent it is, and what it
//! carries.

use vstd::prelude::*;
use vstd::string::StringExecFns;
use crate::config::{PushoverConfig, PushoverPriority, PreviewFormat};
use crate::codec::jpeg_encoding;
use crate::preview::{
    PreviewError, attach_preview, can_preview, preview_possible, preview_succeeds, carries,
    best_frame, gif_preview, webp_preview,
};
use crate::model::EventView;
use crate::modect::{MotionDetectionEvent, WallClock};
use crate::text::{
    decimal, signed_decimal, two_places, push_decimal, push_signed_decimal, push_two_places,
};

verus! {

/// No attachment of an alert may be larger than this many bytes.
pub const MAX_ALERT_ATTACHMENT_SIZE: usize = (1024 * 1024 * 5) / 2;

/// An alert as it is posted.
#[derive(Debug)]
pub struct PushoverAlert {
    pub user: String,
    pub token: String,
    pub message: String,
    /// The bytes of the preview; empty when the alert has none.
    pub attachment: Vec<u8>,
    pub filename: Option<String>,
    /// The media type of the attachment.
    pub attachment_type: Option<String>,
    pub priority: Option<i32>,
    /// Seconds since the Unix epoch.
    pub timestamp: Option<u64>,
    pub title: Option<String>,
}

impl Default for PushoverAlert {
    /// A blank alert.
    fn default() -> (alert: Self)
        ensures
            alert.user@.len() == 0,
            alert.token@.len() == 0,
            alert.message@.len() == 0,
            alert.attachment@.len() == 0,
            alert.filename is None,
            alert.attachment_type is None,
            alert.priority is None,
            alert.timestamp is None,
            alert.title is None,
    {
        PushoverAlert {
            user: String::new(),
            token: String::new(),
            message: String::new(),
            attachment: Vec::new(),
            filename: None,
            attachment_type: None,
            priority: None,
            timestamp: None,
            title: None,
        }
    }
}

impl PushoverAlert {
    /// An alert that says nothing yet: with the account and the priority of
    /// `pushover` where alerts are configured, and blank where they are not.
    pub fn new(pushover: Option<&PushoverConfig>) -> (alert: Self)
        ensures
            alert.message@.len() == 0,
            alert.attachment@.len() == 0,
            alert.filename is None,
            alert.attachment_type is None,
            alert.timestamp is None,
            alert.title is None,
            match pushover {
                Some(config) => alert.user@ == config.user_key@ && alert.token@ == config.token@
                    && alert.priority == Some(config.priority.value()),
                None => alert.user@.len() == 0 && alert.token@.len() == 0 && alert.priority
                    is None,
            },
    {
        match pushover {
            None => PushoverAlert::default(),
            Some(config) => PushoverAlert {
                user: config.user_key.clone(),
                token: config.token.clone(),
                message: String::new(),
                attachment: Vec::new(),
                filename: None,
                attachment_type: None,
                priority: Some(config.priority.value()),
                timestamp: None,
                title: None,
            },
        }
    }
}

/// The text fields of a form, as contracts see them.
pub open spec fn fields_view(fields: Seq<(String, String)>) -> Seq<(Seq<char>, Seq<char>)> {
    fields.map_values(|field: (String, String)| (field.0@, field.1@))
}

/// The text fields that an alert is posted with: the account, the message
/// marked as HTML, and whatever else the alert has of media type, priority,
/// time and title, in this order.
pub open spec fn form_of(alert: PushoverAlert) -> Seq<(Seq<char>, Seq<char>)> {
    seq![
        ("user"@, alert.user@),
        ("token"@, alert.token@),
        ("message"@, alert.message@),
        ("html"@, "1"@),
    ] + (match alert.attachment_type {
        Some(media) => seq![("attachment_type"@, media@)],
        None => Seq::empty(),
    }) + (match alert.priority {
        Some(priority) => seq![("priority"@, signed_decimal(priority as int))],
        None => Seq::empty(),
    }) + (match alert.timestamp {
        Some(seconds) => seq![("timestamp"@, decimal(seconds as nat))],
        None => Seq::empty(),
    }) + (match alert.title {
        Some(title) => seq![("title"@, title@)],
        None => Seq::empty(),
    })
}

fn push_field(fields: &mut Vec<(String, String)>, name: &str, value: String)
    ensures
        fields_view(final(fields)@) == fields_view(old(fields)@).push((name@, value@)),
{
    fields.push((String::from_str(name), value));
}

impl PushoverAlert {
    /// The text fields to post the alert with.
    pub fn form_fields(&self) -> (fields: Vec<(String, String)>)
        ensures
            fields_view(fields@) == form_of(*self),
    {
        let mut fields: Vec<(String, String)> = Vec::new();
        push_field(&mut fields, "user", self.user.clone());
        push_field(&mut fields, "token", self.token.clone());
        push_field(&mut fields, "message", self.message.clone());
        push_field(&mut fields, "html", String::from_str("1"));
        match &self.attachment_type {
            Some(media) => {
                push_field(&mut fields, "attachment_type", media.clone());
            },
            None => {},
        }
        match self.priority {
            Some(priority) => {
                let mut text = String::new();
                push_signed_decimal(&mut text, priority as i64);
                push_field(&mut fields, "priority", text);
            },
            None => {},
        }
        match self.timestamp {
            Some(seconds) => {
                let mut text = String::new();
                push_decimal(&mut text, seconds as u128);
                push_field(&mut fields, "timestamp", text);
            },
            None => {},
        }
        match &self.title {
            Some(title) => {
                push_field(&mut fields, "title", title.clone());
            },
            None => {},
        }
        fields
    }

    /// Whether the alert is posted with a file.
    pub fn has_attachment(&self) -> (has: bool)
        ensures
            has == (self.attachment@.len() > 0),
    {
        self.attachment.len() > 0
    }
}

/// What an alert is about.
#[derive(Clone, Copy, Debug, PartialEq, Eq, Structural)]
pub enum AlertState {
    /// A run was announced while in progress.
    Confirmed,
    /// A run was completed that had not been announced.
    Completed,
    /// A run was completed that had been announced before.
    CompletedAfterConfirm,
}

/// The title of an alert about the camera `camera`.
pub open spec fn alert_title(state: AlertState, camera: Seq<char>) -> Seq<char> {
    match state {
        AlertState::Confirmed => "Ongoing Motion @ "@ + camera,
        AlertState::Completed => "Motion @ "@ + camera,
        AlertState::CompletedAfterConfirm => "Ended Ongoing Motion @ "@ + camera,
    }
}

/// The text of an alert about `event`: its total score with two decimal
/// places, its first frame, and the number of frames after the first.
pub open spec fn alert_message(event: EventView) -> Seq<char> {
    "Total Score: "@ + two_places(event.total_score) + "<br> Start Frame: "@ + decimal(event.start)
        + "<br>Total Frames: "@ + decimal((event.end - event.start) as nat)
}

/// The priority an alert starts from: the camera's own where it has one,
/// else the general one.
pub open spec fn starting_priority(
    pushover: Option<&PushoverConfig>,
    camera: Option<PushoverPriority>,
) -> Option<i32> {
    match camera {
        Some(p) => Some(p.value()),
        None => match pushover {
            Some(config) => Some(config.priority.value()),
            None => None,
        },
    }
}

/// Whether alerts are switched off for the camera.
pub open spec fn alert_suppressed(
    pushover: Option<&PushoverConfig>,
    camera: Option<PushoverPriority>,
) -> bool {
    starting_priority(pushover, camera) == Some(PushoverPriority::Ignore.value())
}

/// The priority an alert goes out with. The end of a run that was announced
/// already is news of the lowest priority.
pub open spec fn alert_priority(
    pushover: Option<&PushoverConfig>,
    camera: Option<PushoverPriority>,
    state: AlertState,
) -> Option<i32> {
    if state == AlertState::CompletedAfterConfirm {
        Some(PushoverPriority::Lowest.value())
    } else {
        starting_priority(pushover, camera)
    }
}

/// A clock reading as seconds since the Unix epoch in 64 unsigned bits;
/// readings before the epoch wrap around.
pub open spec fn epoch_seconds(time: WallClock) -> u64 {
    if time.secs >= 0 {
        time.secs as u64
    } else {
        (time.secs + 0x1_0000_0000_0000_0000) as u64
    }
}

/// `alert` says what an alert about `event` is to say: whose it is, how
/// urgent and when, under which title and with which text.
pub open spec fn says(
    alert: PushoverAlert,
    pushover: Option<&PushoverConfig>,
    time: WallClock,
    event: EventView,
    camera_alert_priority: Option<PushoverPriority>,
    camera_name: Seq<char>,
    state: AlertState,
) -> bool {
    &&& alert.priority == alert_priority(pushover, camera_alert_priority, state)
    &&& alert.timestamp == Some(epoch_seconds(time))
    &&& alert.title matches Some(title) && title@ == alert_title(state, camera_name)
    &&& alert.message@ == alert_message(event)
    &&& match pushover {
        Some(config) => alert.user@ == config.user_key@ && alert.token@ == config.token@,
        None => alert.user@.len() == 0 && alert.token@.len() == 0,
    }
}

/// The alert carries nothing.
pub open spec fn is_bare(alert: PushoverAlert) -> bool {
    &&& alert.attachment@.len() == 0
    &&& alert.attachment_type is None
    &&& alert.filename is None
}

/// What an alert about `event` carries under the given preview format:
/// nothing, the still of its best frame, its GIF, or its WebP where that one
/// fits an alert and its GIF where it does not. An event without frames has
/// no still.
pub open spec fn carries_preview(
    alert: PushoverAlert,
    event: EventView,
    frame_rate: u32,
    format: PreviewFormat,
) -> bool {
    match format {
        PreviewFormat::Off => is_bare(alert),
        PreviewFormat::Jpeg => if event.frames.len() == 0 {
            is_bare(alert)
        } else {
            carries(
                alert,
                jpeg_encoding(event.frames[best_frame(event.frames)].image),
                "image/jpeg"@,
                "event.jpeg"@,
            )
        },
        PreviewFormat::Gif => carries(
            alert,
            gif_preview(event, frame_rate),
            "image/gif"@,
            "event.gif"@,
        ),
        PreviewFormat::Webp => if webp_preview(event, frame_rate).len()
            <= MAX_ALERT_ATTACHMENT_SIZE {
            carries(alert, webp_preview(event, frame_rate), "image/webp"@, "event.webp"@)
        } else {
            carries(alert, gif_preview(event, frame_rate), "image/gif"@, "event.gif"@)
        },
    }
}

/// The alert about `event`, without a preview; `None` where alerts are
/// switched off for the camera.
pub fn compose_alert(
    pushover: Option<&PushoverConfig>,
    time: WallClock,
    event: &MotionDetectionEvent,
    camera_alert_priority: Option<PushoverPriority>,
    camera_name: &str,
    state: AlertState,
) -> (composed: Option<PushoverAlert>)
    requires
        !alert_suppressed(pushover, camera_alert_priority) ==> event@.start <= event@.end,
    ensures
        composed is None <==> alert_suppressed(pushover, camera_alert_priority),
        composed matches Some(alert) ==> is_bare(alert) && says(
            alert,
            pushover,
            time,
            event@,
            camera_alert_priority,
            camera_name@,
            state,
        ),
{
    let mut alert = PushoverAlert::new(pushover);
    match camera_alert_priority {
        Some(priority) => {
            alert.priority = Some(priority.value());
        },
        None => {},
    }
    if alert.priority == Some(PushoverPriority::Ignore.value()) {
        return None;
    }
    let seconds: u64 = if time.secs >= 0 {
        time.secs as u64
    } else {
        u64::MAX - ((-(time.secs + 1)) as u64)
    };
    alert.timestamp = Some(seconds);
    let mut title = match state {
        AlertState::Confirmed => String::from_str("Ongoing Motion @ "),
        AlertState::Completed => String::from_str("Motion @ "),
        AlertState::CompletedAfterConfirm => String::from_str("Ended Ongoing Motion @ "),
    };
    title.append(camera_name);
    alert.title = Some(title);
    if state == AlertState::CompletedAfterConfirm {
        alert.priority = Some(PushoverPriority::Lowest.value());
    }
    let mut message = String::from_str("Total Score: ");
    push_two_places(&mut message, event.total_score);
    message.append("<br> Start Frame: ");
    push_decimal(&mut message, event.start_stream_frame_number as u128);
    message.append("<br>Total Frames: ");
    push_decimal(
        &mut message,
        (event.end_stream_frame_number - event.start_stream_frame_number) as u128,
    );
    alert.message = message;
    Some(alert)
}

/// The preview that alerts get: the configured one, and none where alerts
/// are not configured.
pub open spec fn alert_format(pushover: Option<&PushoverConfig>) -> PreviewFormat {
    match pushover {
        Some(config) => config.preview_format,
        None => PreviewFormat::Off,
    }
}

/// Whether alerts are switched off for the camera.
pub fn is_suppressed(
    pushover: Option<&PushoverConfig>,
    camera_alert_priority: Option<PushoverPriority>,
) -> (suppressed: bool)
    ensures
        suppressed == alert_suppressed(pushover, camera_alert_priority),
{
    let priority = match camera_alert_priority {
        Some(priority) => Some(priority.value()),
        None => match pushover {
            Some(config) => Some(config.priority.value()),
            None => None,
        },
    };
    priority == Some(PushoverPriority::Ignore.value())
}

/// What `alert_event` asks of an event: nothing where alerts are switched
/// off; else that the event ends no earlier than it starts and that the
/// preview that alerts get can be asked for.
pub open spec fn alert_possible(
    pushover: Option<&PushoverConfig>,
    camera_alert_priority: Option<PushoverPriority>,
    event: EventView,
    frame_rate: u32,
) -> bool {
    !alert_suppressed(pushover, camera_alert_priority) ==> event.start <= event.end
        && preview_possible(event, frame_rate, alert_format(pushover))
}

/// Whether `alert_event` can be asked for the alert about `event`.
pub fn can_alert(
    pushover: Option<&PushoverConfig>,
    camera_alert_priority: Option<PushoverPriority>,
    event: &MotionDetectionEvent,
    frame_rate: u32,
) -> (ok: bool)
    ensures
        ok == alert_possible(pushover, camera_alert_priority, event@, frame_rate),
{
    let format = match pushover {
        Some(config) => config.preview_format,
        None => PreviewFormat::Off,
    };
    is_suppressed(pushover, camera_alert_priority) || (event.start_stream_frame_number
        <= event.end_stream_frame_number && can_preview(event, frame_rate, format))
}

/// The alert about `event`, with its preview, ready to be posted; `None`
/// where alerts are switched off for the camera, whatever the event. Else
/// the alert is made exactly if its preview gets made. Nothing is posted
/// here.
pub fn alert_event(
    pushover: Option<&PushoverConfig>,
    time: WallClock,
    event: &MotionDetectionEvent,
    camera_alert_priority: Option<PushoverPriority>,
    camera_name: &str,
    frame_rate: u32,
    state: AlertState,
) -> (made: Result<Option<PushoverAlert>, PreviewError>)
    requires
        alert_possible(pushover, camera_alert_priority, event@, frame_rate),
    ensures
        alert_suppressed(pushover, camera_alert_priority) ==> made == Ok::<
            Option<PushoverAlert>,
            PreviewError,
        >(None),
        !alert_suppressed(pushover, camera_alert_priority) ==> (made is Ok <==> preview_succeeds(
            event@,
            frame_rate,
            alert_format(pushover),
        )),
        !alert_suppressed(pushover, camera_alert_priority) && made is Ok ==> made->Ok_0 is Some
            && says(
            made->Ok_0->Some_0,
            pushover,
            time,
            event@,
            camera_alert_priority,
            camera_name@,
            state,
        ) && carries_preview(made->Ok_0->Some_0, event@, frame_rate, alert_format(pushover)),
        made is Ok && made->Ok_0 is Some && (alert_format(pushover) == PreviewFormat::Gif
            || alert_format(pushover) == PreviewFormat::Webp)
            ==> made->Ok_0->Some_0.attachment@.len() <= MAX_ALERT_ATTACHMENT_SIZE,
        made is Err ==> made == Err::<Option<PushoverAlert>, PreviewError>(
            PreviewError::EncoderFailed,
        ) && alert_format(pushover) != PreviewFormat::Off,
{
    let format = match pushover {
        Some(config) => config.preview_format,
        None => PreviewFormat::Off,
    };
    match compose_alert(pushover, time, event, camera_alert_priority, camera_name, state) {
        None => Ok(None),
        Some(composed) => {
            let mut alert = composed;
            match attach_preview(&mut alert, event, frame_rate, format) {
                Ok(()) => Ok(Some(alert)),
                Err(e) => Err(e),
            }
        },
    }
}

} // verus!
